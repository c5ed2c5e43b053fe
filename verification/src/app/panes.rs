//! What the keys do in the tree and in the panes of the repository, and what saving does.

use vstd::prelude::*;

use crate::action::Action;
use crate::app;
use crate::app::flows;
use crate::app::navigation;
use crate::app::repository;
use crate::app::routing;
use crate::app::session;
use crate::app::{
    AppModel,
    Env,
    ErrandModel,
    GitFileModel,
    GitGroup,
    GitModel,
    HistoryModel,
    Jump,
    PromptKindModel,
};
use crate::git::{LineStatus, StatusEntry};
use crate::order;
use crate::paths;
use crate::scan;
use crate::search;
use crate::text;
use crate::tree;

verus! {

/// No dialog is before the panes.
pub open spec fn panes_first(m: AppModel) -> bool {
    &&& flows::dialogs_first(m)
    &&& m.open_file is None
    &&& m.type_search is None
    &&& m.text_search is None
}

// --------------------------------------------------------------- changed files

/// A file is in the section that its two states put it in.
pub proof fn law_sections_of_changed_files(s: StatusEntry)
    ensures
        ({
            let f = repository::file_of(s);
            &&& f.path == s.path@ && f.staged == s.staged && f.unstaged == s.unstaged
            &&& s.staged == '?' <==> f.group == GitGroup::Untracked
            &&& s.staged != '?' && s.staged != ' ' && s.unstaged == ' ' ==> f.group
                == GitGroup::Staged
            &&& s.staged != '?' && s.staged != ' ' && s.unstaged != ' ' ==> f.group
                == GitGroup::Both
            &&& s.staged == ' ' ==> f.group == GitGroup::Modified
        }),
{
}

/// The sections in their order.
pub open spec fn section(g: GitGroup) -> int {
    match g {
        GitGroup::Staged => 1,
        GitGroup::Both => 2,
        GitGroup::Modified => 3,
        GitGroup::Untracked => 4,
    }
}

/// The changed files are listed section by section, and each section by path; each file
/// once, and no other.
pub proof fn law_changed_files_are_listed(ss: Seq<StatusEntry>)
    ensures
        ({
            let fs = repository::files_of(ss);
            &&& fs.len() == ss.len()
            &&& fs.to_multiset() == Seq::new(
                ss.len(),
                |i: int| repository::file_of(ss[i]),
            ).to_multiset()
            &&& forall|i: int, j: int|
                0 <= i < j < fs.len() ==> section((#[trigger] fs[i]).group) <= section(
                    (#[trigger] fs[j]).group,
                )
            &&& forall|i: int, j: int|
                0 <= i < j < fs.len() && (#[trigger] fs[i]).group == (#[trigger] fs[j]).group
                    ==> search::path_le(fs[i].path, fs[j].path)
        }),
{
    let all = Seq::new(ss.len(), |i: int| repository::file_of(ss[i]));
    let le = |a: GitFileModel, b: GitFileModel| repository::file_le(a, b);
    assert forall|a: GitFileModel, b: GitFileModel| #[trigger] le(a, b) || le(b, a) by {
        search::lemma_path_order(a.path, b.path, a.path);
    }
    assert forall|a: GitFileModel, b: GitFileModel, c: GitFileModel|
        #![trigger le(a, b), le(b, c)]
        le(a, b) && le(b, c) implies le(a, c) by {
        search::lemma_path_order(a.path, b.path, c.path);
    }
    order::law_sorting_by(all, le);
    let fs = repository::files_of(ss);
    assert forall|i: int, j: int| 0 <= i < j < fs.len() implies repository::file_le(
        #[trigger] fs[i],
        #[trigger] fs[j],
    ) by {
        assert(le(fs[i], fs[j]));
    }
}

/// In the pane of changed files, `s` stages the file under the cursor, `u` unstages it, and
/// `c` asks for a commit message for its repository.
pub proof fn law_keys_of_changed_files(m: AppModel, v: GitModel, env: Env)
    requires
        panes_first(m),
        m.history is None,
        m.diff == Some(v),
        0 <= v.cursor < v.files.len(),
    ensures
        ({
            let stage = routing::applied(m, Action::Insert('s'), env);
            let unstage = routing::applied(m, Action::Insert('u'), env);
            let commit = routing::applied(m, Action::Insert('c'), env);
            let path = v.files[v.cursor].path;
            &&& stage.1 == Some(ErrandModel::Stage { repo_root: v.repo_root, path })
            &&& unstage.1 == Some(ErrandModel::Unstage { repo_root: v.repo_root, path })
            &&& stage.0.buffer == m.buffer && unstage.0.buffer == m.buffer
            &&& commit.1 is None
            &&& commit.0.prompt matches Some(p) && p.text.len() == 0 && p.kind
                == (PromptKindModel::CommitMessage { repo_root: v.repo_root })
        }),
{
}

/// Moving to another changed file asks for its changes, and shows them from the top.
pub proof fn law_moving_among_changed_files(m: AppModel, v: GitModel, env: Env)
    requires
        panes_first(m),
        m.history is None,
        m.diff == Some(v),
        0 <= v.cursor < v.files.len(),
    ensures
        ({
            let down = routing::applied(m, Action::MoveDown, env);
            let up = routing::applied(m, Action::MoveUp, env);
            &&& v.cursor + 1 < v.files.len() ==> {
                let f = v.files[v.cursor + 1];
                &&& down.0.diff == Some(GitModel { cursor: v.cursor + 1, scroll: 0, ..v })
                &&& down.1 == Some(
                    ErrandModel::FileDiff {
                        repo_root: v.repo_root,
                        path: f.path,
                        untracked: f.group == GitGroup::Untracked,
                        gutter: false,
                    },
                )
            }
            &&& v.cursor + 1 == v.files.len() ==> down.0.diff == Some(v) && down.1 is None
            &&& v.cursor > 0 ==> {
                let f = v.files[v.cursor - 1];
                &&& up.0.diff == Some(GitModel { cursor: v.cursor - 1, scroll: 0, ..v })
                &&& up.1 == Some(
                    ErrandModel::FileDiff {
                        repo_root: v.repo_root,
                        path: f.path,
                        untracked: f.group == GitGroup::Untracked,
                        gutter: false,
                    },
                )
            }
            &&& v.cursor == 0 ==> up.0.diff == Some(v) && up.1 is None
        }),
{
}

/// The page keys scroll what a pane shows by a page less two rows, and stop at either end.
pub proof fn law_scrolling_a_pane(m: AppModel, v: GitModel, env: Env)
    requires
        panes_first(m),
        m.history is None,
        m.diff == Some(v),
        0 <= v.cursor < v.files.len(),
        v.scroll >= 0,
        v.lines.len() > 0,
    ensures
        ({
            let page = if env.rows >= 3 {
                env.rows - 2
            } else {
                1
            };
            let down = routing::applied(m, Action::PageDown, env);
            let up = routing::applied(m, Action::PageUp, env);
            &&& down.1 is None && up.1 is None
            &&& down.0.diff == Some(
                GitModel {
                    scroll: if v.scroll + page <= v.lines.len() - 1 {
                        v.scroll + page
                    } else {
                        v.lines.len() - 1
                    },
                    ..v
                },
            )
            &&& up.0.diff == Some(
                GitModel {
                    scroll: if v.scroll >= page {
                        v.scroll - page
                    } else {
                        0
                    },
                    ..v
                },
            )
        }),
{
}

proof fn lemma_file_place(fs: Seq<GitFileModel>, path: Seq<char>, i: int)
    requires
        0 <= i,
    ensures
        match repository::file_place(fs, path, i) {
            Some(k) => i <= k < fs.len() && paths::components(fs[k].path) == paths::components(
                path,
            ) && forall|j: int|
                i <= j < k ==> paths::components((#[trigger] fs[j]).path) != paths::components(
                    path,
                ),
            None => forall|j: int|
                i <= j < fs.len() ==> paths::components((#[trigger] fs[j]).path)
                    != paths::components(path),
        },
    decreases fs.len() - i,
{
    if i < fs.len() {
        lemma_file_place(fs, path, i + 1);
    }
}

/// When the changed files are listed again, the cursor stays on the file that it was on, if
/// that is still among them; otherwise it is on the last one. With none left the pane is
/// closed.
pub proof fn law_listing_changed_files_again(
    m: AppModel,
    v: GitModel,
    ss: Vec<StatusEntry>,
    gutter: bool,
    k: int,
)
    requires
        m.diff == Some(v),
        0 <= v.cursor < v.files.len(),
    ensures
        ({
            let r = repository::changes_again(m, Ok(ss), gutter).0;
            let fs = repository::files_of(ss@);
            let path = v.files[v.cursor].path;
            &&& ss@.len() == 0 ==> r.diff is None && r.status == "Working tree clean"@
            &&& ss@.len() > 0 ==> {
                &&& r.diff is Some
                &&& r.diff->Some_0.files == fs
                &&& 0 <= r.diff->Some_0.cursor < fs.len()
                &&& 0 <= k < fs.len() && paths::components(fs[k].path) == paths::components(path)
                    ==> paths::components(fs[r.diff->Some_0.cursor].path) == paths::components(path)
            }
        }),
{
    let fs = repository::files_of(ss@);
    order::lemma_sorted_by_len(
        Seq::new(ss@.len(), |i: int| repository::file_of(ss@[i])),
        |a: GitFileModel, b: GitFileModel| repository::file_le(a, b),
    );
    lemma_file_place(fs, v.files[v.cursor].path, 0);
}

/// A pane shows what git printed, line by line, or why it failed.
pub proof fn law_panes_show_what_git_printed(
    m: AppModel,
    v: GitModel,
    h: HistoryModel,
    shown: Result<String, String>,
    gutter: bool,
)
    requires
        m.diff == Some(v),
        m.history == Some(h),
    ensures
        ({
            let d = repository::diff_known(m, shown, gutter).0.diff;
            let c = repository::commit_known(m, shown).history;
            match shown {
                Ok(s) => d == Some(GitModel { lines: scan::lines(s@), ..v }) && c == Some(
                    HistoryModel { lines: scan::lines(s@), ..h },
                ),
                Err(e) => d == Some(GitModel { lines: seq!["git diff failed: "@ + e@], ..v }) && c
                    == Some(HistoryModel { lines: seq!["git show failed: "@ + e@], ..h }),
            }
        }),
{
}

/// Moving to another commit asks for what it changed.
pub proof fn law_moving_among_commits(m: AppModel, v: HistoryModel, env: Env)
    requires
        panes_first(m),
        m.history == Some(v),
        0 <= v.cursor < v.entries.len(),
    ensures
        ({
            let down = routing::applied(m, Action::MoveDown, env);
            let up = routing::applied(m, Action::MoveUp, env);
            &&& v.cursor + 1 < v.entries.len() ==> {
                &&& down.0.history == Some(HistoryModel { cursor: v.cursor + 1, scroll: 0, ..v })
                &&& down.1 == Some(
                    ErrandModel::Show {
                        repo_root: v.repo_root,
                        sha: v.entries[v.cursor + 1].sha,
                    },
                )
            }
            &&& v.cursor > 0 ==> {
                &&& up.0.history == Some(HistoryModel { cursor: v.cursor - 1, scroll: 0, ..v })
                &&& up.1 == Some(
                    ErrandModel::Show {
                        repo_root: v.repo_root,
                        sha: v.entries[v.cursor - 1].sha,
                    },
                )
            }
        }),
{
}

/// The panes are asked for with what the buffer's file, or else the tree, lies in, and closed
/// by the key that opened them.
pub proof fn law_opening_and_closing_panes(m: AppModel, env: Env)
    requires
        m.chord is None,
        m.prompt is None,
    ensures
        ({
            let probe = match m.buffer.path {
                Some(p) => p,
                None => m.tree.root,
            };
            let changes = routing::applied(m, Action::ToggleGitDiff, env);
            let history = routing::applied(m, Action::ToggleHistory, env);
            &&& m.diff is None ==> changes.1 == Some(ErrandModel::Status { probe })
            &&& m.diff is Some ==> changes.1 is None && changes.0.diff is None
            &&& m.history is None ==> history.1 == Some(ErrandModel::Log { probe })
            &&& m.history is Some ==> history.1 is None && history.0.history is None
        }),
{
}

// ------------------------------------------------------------------------ tree

/// In the tree, Enter opens a file, asks what a closed directory holds, closes an open one,
/// and on the `..` row asks for the directory above.
pub proof fn law_enter_in_the_tree(m: AppModel, env: Env)
    requires
        panes_first(m),
        m.history is None,
        m.diff is None,
        m.tree.focused,
        0 <= m.tree.cursor < m.tree.rows.len(),
    ensures
        ({
            let r = routing::applied(m, Action::Insert('\n'), env);
            let row = m.tree.rows[m.tree.cursor];
            &&& row.is_parent_link ==> r.1 == (match paths::parent(m.tree.root) {
                Some(dir) => Some(ErrandModel::ListRoot { dir }),
                None => None,
            })
            &&& !row.is_parent_link && !row.is_dir ==> flows::goes_to_file(
                m,
                r,
                row.path,
                Jump::Tree,
            )
            &&& !row.is_parent_link && row.is_dir && !row.expanded ==> r.1 == Some(
                ErrandModel::List { dir: row.path },
            ) && r.0.tree == m.tree
            &&& !row.is_parent_link && row.is_dir && row.expanded ==> r.1 is None && r.0.tree
                == tree::activated(m.tree, Seq::empty())
        }),
{
}

/// The arrow keys move one row in the tree, and stop at either end.
pub proof fn law_moving_in_the_tree(m: AppModel, env: Env)
    requires
        panes_first(m),
        m.history is None,
        m.diff is None,
        m.tree.focused,
        0 <= m.tree.cursor < m.tree.rows.len(),
    ensures
        ({
            let up = routing::applied(m, Action::MoveUp, env);
            let down = routing::applied(m, Action::MoveDown, env);
            &&& up.1 is None && down.1 is None
            &&& up.0.buffer == m.buffer && down.0.buffer == m.buffer
            &&& up.0.tree == (tree::TreeModel {
                cursor: if m.tree.cursor > 0 {
                    m.tree.cursor - 1
                } else {
                    0
                },
                ..m.tree
            })
            &&& down.0.tree == (tree::TreeModel {
                cursor: if m.tree.cursor + 1 < m.tree.rows.len() {
                    m.tree.cursor + 1
                } else {
                    m.tree.cursor
                },
                ..m.tree
            })
        }),
{
}

// ---------------------------------------------------------------------- saving

/// Saving writes the text that is in the buffer to its path; a buffer without a path cannot
/// be saved.
pub proof fn law_saving_writes_the_text(m: AppModel, env: Env)
    requires
        m.chord is None,
        m.prompt is None,
    ensures
        ({
            let r = routing::applied(m, Action::Save, env);
            &&& m.buffer.path matches Some(path) ==> r.1 == Some(
                ErrandModel::Save { path, contents: m.buffer.text },
            )
            &&& m.buffer.path is None ==> r.1 is None && r.0.status
                == "Save failed: buffer has no associated path"@
            &&& r.0.buffer.text == m.buffer.text
            &&& r.0.buffer.dirty == m.buffer.dirty
        }),
{
    reveal_strlit("Save failed: ");
    reveal_strlit("buffer has no associated path");
    reveal_strlit("Save failed: buffer has no associated path");
    assert("Save failed: "@ + "buffer has no associated path"@
        =~= "Save failed: buffer has no associated path"@);
}

/// What was written is saved, and the status says how many bytes; what could not be written
/// is still unsaved. The text stays as it is either way.
pub proof fn law_saved_and_unsaved(
    m: AppModel,
    written: Result<(), String>,
    diff: Result<String, String>,
)
    requires
        m.buffer.path is Some,
    ensures
        ({
            let by_key = session::save_done(m, written, diff);
            let by_itself = session::autosave_done(m, written, diff);
            &&& by_key.buffer.text == m.buffer.text && by_itself.buffer.text == m.buffer.text
            &&& by_key.buffer.version == m.buffer.version
            &&& by_itself.buffer.version == m.buffer.version
            &&& written is Ok ==> {
                &&& !by_key.buffer.dirty && !by_itself.buffer.dirty
                &&& by_key.status == "Saved "@ + scan::decimal(text::utf8_len(m.buffer.text))
                    + " bytes"@
                &&& by_itself.status == "Autosaved "@ + scan::decimal(
                    text::utf8_len(m.buffer.text),
                ) + " bytes"@
                &&& by_itself.last_edit is None
            }
            &&& written matches Err(e) ==> {
                &&& by_key.buffer.dirty == m.buffer.dirty
                &&& by_key.status == "Save failed: "@ + e@
                &&& by_itself == m
            }
        }),
{
}

/// A buffer is saved by itself exactly where that is wanted, something is unsaved, there is a
/// path to save to, and nothing was typed for half a second.
pub proof fn law_when_a_buffer_is_saved_by_itself(m: AppModel, now: u64)
    ensures
        session::autosave_due(m, now) <==> m.autosave && m.buffer.dirty && m.buffer.path is Some
            && m.last_edit is Some && now >= m.last_edit->Some_0 + 500,
{
}

/// Of the changes that are known of a line the last one counts; a line without any has no
/// mark.
pub proof fn law_marks_of_a_line(changes: Seq<(nat, LineStatus)>, line: nat)
    ensures
        match session::status_of_line(changes, line, changes.len() as int) {
            Some(s) => exists|k: int|
                {
                    &&& 0 <= k < changes.len()
                    &&& #[trigger] changes[k] == (line, s)
                    &&& forall|j: int| k < j < changes.len() ==> (#[trigger] changes[j]).0 != line
                },
            None => forall|k: int| 0 <= k < changes.len() ==> (#[trigger] changes[k]).0 != line,
        },
{
    lemma_mark(changes, line, changes.len() as int);
}

proof fn lemma_mark(changes: Seq<(nat, LineStatus)>, line: nat, n: int)
    requires
        0 <= n <= changes.len(),
    ensures
        match session::status_of_line(changes, line, n) {
            Some(s) => exists|k: int|
                {
                    &&& 0 <= k < n
                    &&& #[trigger] changes[k] == (line, s)
                    &&& forall|j: int| k < j < n ==> (#[trigger] changes[j]).0 != line
                },
            None => forall|k: int| 0 <= k < n ==> (#[trigger] changes[k]).0 != line,
        },
    decreases n,
{
    if n > 0 {
        if changes[n - 1].0 == line {
            assert(changes[n - 1] == (line, changes[n - 1].1));
        } else {
            lemma_mark(changes, line, n - 1);
        }
    }
}

} // verus!
