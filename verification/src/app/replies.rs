//! What the editor does with what git, the search and the servers reply.

use vstd::prelude::*;

use crate::app::dialogs;
use crate::app::repository;
use crate::app::{AppModel, Env, ErrandModel, GitGroup};
use crate::git::{LogEntry, StatusEntry};
use crate::lsp::SymbolInformation;
use crate::order;

verus! {

/// Nothing but the message at the bottom is another one.
pub open spec fn only_says(m: AppModel, r: AppModel, s: Seq<char>) -> bool {
    r == (AppModel { status: s, ..m })
}

/// The dialog for files opens with all of them to pick from and with nothing typed; without
/// files it stays closed, and says so.
pub proof fn law_files_to_pick_from(m: AppModel, root: Seq<char>, files: Seq<Seq<char>>)
    ensures
        ({
            let r = dialogs::file_dialog(m, root, files);
            &&& files.len() == 0 ==> only_says(m, r, "No files under project root"@)
            &&& files.len() > 0 ==> {
                &&& r.open_file is Some
                &&& r.open_file->Some_0.root == root && r.open_file->Some_0.files == files
                &&& r.open_file->Some_0.query.len() == 0 && r.open_file->Some_0.cursor == 0
                &&& r.buffer == m.buffer && r.view == m.view
            }
        }),
{
}

/// The types that a server found are shown, the first of them selected; where there are
/// none, or where the server failed, that is said in the dialog.
pub proof fn law_types_are_shown(
    m: AppModel,
    query: Seq<char>,
    answer: Result<Vec<SymbolInformation>, String>,
    env: Env,
)
    requires
        m.type_search is Some,
        m.language is Some,
        m.servers.contains(m.language->Some_0),
    ensures
        ({
            let r = dialogs::types_found(m, query, answer, env);
            let v = r.type_search->Some_0;
            &&& r.type_search is Some
            &&& v.cursor == 0 && v.query == m.type_search->Some_0.query
            &&& r == (AppModel { type_search: r.type_search, ..m })
            &&& answer is Ok ==> v.results == dialogs::types_among(
                answer->Ok_0@,
                answer->Ok_0@.len() as int,
            )
            &&& answer is Ok && v.results.len() > 0 ==> v.status.len() == 0
            &&& answer is Ok && v.results.len() == 0 && !env.indexing ==> v.status
                == "No type matches for \""@ + query + "\""@
            &&& answer is Err ==> v.results.len() == 0 && v.status == "workspace/symbol failed: "@
                + answer->Err_0@
        }),
{
}

/// Changed files open their pane, with what changed in the first of them asked for. Without
/// any, and where git failed, the pane stays closed and that is said.
pub proof fn law_changes_open_their_pane(
    m: AppModel,
    answer: Result<(String, Vec<StatusEntry>), String>,
)
    ensures
        ({
            let (r, e) = repository::changes_known(m, answer);
            &&& answer is Err ==> only_says(m, r, "git: "@ + answer->Err_0@) && e is None
            &&& answer is Ok && answer->Ok_0.1@.len() == 0 ==> only_says(
                m,
                r,
                "Working tree clean"@,
            ) && e is None
            &&& answer is Ok && answer->Ok_0.1@.len() > 0 ==> {
                let v = r.diff->Some_0;
                &&& r.diff is Some && r == (AppModel { diff: r.diff, ..m })
                &&& v.files == repository::files_of(answer->Ok_0.1@)
                &&& v.cursor == 0 && v.scroll == 0 && v.repo_root == answer->Ok_0.0@
                &&& e is Some && e->Some_0 is FileDiff
                &&& e->Some_0->FileDiff_repo_root == answer->Ok_0.0@
                &&& e->Some_0->FileDiff_path == v.files[0].path
                &&& e->Some_0->untracked <==> v.files[0].group == GitGroup::Untracked
            }
        }),
{
}

/// Commits open their pane, with what the first of them changed asked for. Without any, and
/// where git failed, the pane stays closed and that is said.
pub proof fn law_commits_open_their_pane(
    m: AppModel,
    answer: Result<(String, Vec<LogEntry>), String>,
)
    ensures
        ({
            let (r, e) = repository::history_known(m, answer);
            &&& answer is Err ==> only_says(m, r, "git: "@ + answer->Err_0@) && e is None
            &&& answer is Ok && answer->Ok_0.1@.len() == 0 ==> only_says(m, r, "No commits yet"@)
                && e is None
            &&& answer is Ok && answer->Ok_0.1@.len() > 0 ==> {
                let v = r.history->Some_0;
                &&& r.history is Some && r == (AppModel { history: r.history, ..m })
                &&& v.entries == order::views_of(answer->Ok_0.1@)
                &&& v.cursor == 0 && v.scroll == 0 && v.repo_root == answer->Ok_0.0@
                &&& e == Some(
                    ErrandModel::Show {
                        repo_root: answer->Ok_0.0@,
                        sha: answer->Ok_0.1@[0].sha@,
                    },
                )
            }
        }),
{
}

/// A file that was staged or unstaged, and a commit that was made, are told, and the pane is
/// brought up to date; after a commit the marks beside the text are, too. A failure is told,
/// and nothing follows.
pub proof fn law_after_staging_and_committing(
    m: AppModel,
    done: Seq<char>,
    s: Seq<char>,
    answer: Result<(), String>,
)
    requires
        m.diff is Some,
    ensures
        ({
            let (r, e) = repository::moved_to_index(m, done, s, answer);
            &&& answer is Ok ==> only_says(m, r, done + s) && e == Some(
                ErrandModel::Refresh { repo_root: m.diff->Some_0.repo_root, gutter: false },
            )
            &&& answer is Err ==> only_says(m, r, answer->Err_0@) && e is None
        }),
        ({
            let (r, e) = repository::commit_made(m, s, answer);
            &&& answer is Ok ==> only_says(m, r, "Committed: "@ + s) && e == Some(
                ErrandModel::Refresh { repo_root: m.diff->Some_0.repo_root, gutter: true },
            )
            &&& answer is Err ==> only_says(m, r, answer->Err_0@) && e is None
        }),
{
}

} // verus!
