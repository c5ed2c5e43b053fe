//! The overlays on a repository: the changed files with their diffs, and the
//! commits with what they changed.

use vstd::prelude::*;

use crate::action::Action;
use crate::app;
use crate::app::dialogs;
use crate::app::dialogs::move_in_list;
use crate::app::{
    App, AppModel, Errand, ErrandModel, GitFile, GitFileModel, GitGroup, GitModel, GitView,
    HistoryModel, HistoryView, Prompt, PromptKind, PromptKindModel, PromptModel,
};
use crate::git::{LogEntry, StatusEntry};
use crate::order;
use crate::order::{sort, Ranked};
use crate::paths;
use crate::paths::is_same_path;
use crate::scan;
use crate::scan::split_lines;
use crate::search;
use crate::search::path_before;
use crate::text::{join2, owned, to_chars, to_text};
use crate::view;

use vstd::view::View as _;

verus! {

/// How many commits are listed.
pub const HISTORY_LIMIT: usize = 200;

// -------------------------------------------------------------------- the files

/// The section that a file belongs to, by its state in the index and in the
/// working tree.
pub open spec fn group_of(staged: char, unstaged: char) -> GitGroup {
    if staged == '?' {
        GitGroup::Untracked
    } else if staged != ' ' && unstaged != ' ' {
        GitGroup::Both
    } else if staged != ' ' {
        GitGroup::Staged
    } else {
        GitGroup::Modified
    }
}

/// The section that a file belongs to.
pub fn classify(staged: char, unstaged: char) -> (r: GitGroup)
    ensures
        r == group_of(staged, unstaged),
{
    if staged == '?' {
        GitGroup::Untracked
    } else if staged != ' ' && unstaged != ' ' {
        GitGroup::Both
    } else if staged != ' ' {
        GitGroup::Staged
    } else {
        GitGroup::Modified
    }
}

/// The place of a section in the list.
pub open spec fn group_rank(g: GitGroup) -> int {
    match g {
        GitGroup::Staged => 0,
        GitGroup::Both => 1,
        GitGroup::Modified => 2,
        GitGroup::Untracked => 3,
    }
}

impl GitGroup {
    /// The headline of the section.
    pub fn header(self) -> (r: &'static str)
        ensures
            r@ == match self {
                GitGroup::Staged => "Staged"@,
                GitGroup::Both => "Staged + Modified"@,
                GitGroup::Modified => "Modified"@,
                GitGroup::Untracked => "Untracked"@,
            },
    {
        match self {
            GitGroup::Staged => "Staged",
            GitGroup::Both => "Staged + Modified",
            GitGroup::Modified => "Modified",
            GitGroup::Untracked => "Untracked",
        }
    }

    fn rank(self) -> (r: u8)
        ensures
            r == group_rank(self),
    {
        match self {
            GitGroup::Staged => 0,
            GitGroup::Both => 1,
            GitGroup::Modified => 2,
            GitGroup::Untracked => 3,
        }
    }
}

/// By section, then by path.
pub open spec fn file_le(a: GitFileModel, b: GitFileModel) -> bool {
    if a.group != b.group {
        group_rank(a.group) < group_rank(b.group)
    } else {
        search::path_le(a.path, b.path)
    }
}

impl Ranked for GitFile {
    open spec fn rank_le(self, other: GitFile) -> bool {
        file_le(self@, other@)
    }

    fn ranks_before(&self, other: &GitFile) -> bool {
        if self.group != other.group {
            self.group.rank() < other.group.rank()
        } else {
            path_before(&self.path, &other.path)
        }
    }
}

/// The row of a changed file.
pub open spec fn file_of(s: StatusEntry) -> GitFileModel {
    GitFileModel {
        path: s.path@,
        staged: s.staged,
        unstaged: s.unstaged,
        group: group_of(s.staged, s.unstaged),
    }
}

/// The rows of the changed files, in order.
pub open spec fn files_of(ss: Seq<StatusEntry>) -> Seq<GitFileModel> {
    order::sorted_by(
        Seq::new(ss.len(), |i: int| file_of(ss[i])),
        |a: GitFileModel, b: GitFileModel| file_le(a, b),
    )
}

proof fn lemma_files_len(ss: Seq<StatusEntry>)
    ensures
        files_of(ss).len() == ss.len(),
{
    lemma_sorted_len(Seq::new(ss.len(), |i: int| file_of(ss[i])));
}

proof fn lemma_insert_len(fs: Seq<GitFileModel>, x: GitFileModel)
    ensures
        order::insert_by(fs, x, |a: GitFileModel, b: GitFileModel| file_le(a, b)).len()
            == fs.len() + 1,
    decreases fs.len(),
{
    if fs.len() > 0 {
        lemma_insert_len(fs.drop_last(), x);
    }
}

proof fn lemma_sorted_len(fs: Seq<GitFileModel>)
    ensures
        order::sorted_by(fs, |a: GitFileModel, b: GitFileModel| file_le(a, b)).len() == fs.len(),
    decreases fs.len(),
{
    if fs.len() > 0 {
        lemma_sorted_len(fs.drop_last());
        lemma_insert_len(
            order::sorted_by(
                fs.drop_last(),
                |a: GitFileModel, b: GitFileModel| file_le(a, b),
            ),
            fs.last(),
        );
    }
}

fn make_files(ss: &Vec<StatusEntry>) -> (r: Vec<GitFile>)
    ensures
        order::views_of(r@) == files_of(ss@),
        r@.len() == ss@.len(),
{
    let ghost all = Seq::new(ss@.len(), |i: int| file_of(ss@[i]));
    let mut r: Vec<GitFile> = Vec::new();
    let mut i: usize = 0;
    while i < ss.len()
        invariant
            all == Seq::new(ss@.len(), |i: int| file_of(ss@[i])),
            i <= ss@.len(),
            order::views_of(r@) == all.take(i as int),
        decreases ss@.len() - i,
    {
        let ghost before = order::views_of(r@);
        let s = &ss[i];
        r.push(
            GitFile {
                path: owned(&s.path),
                staged: s.staged,
                unstaged: s.unstaged,
                group: classify(s.staged, s.unstaged),
            },
        );
        assert(order::views_of(r@) =~= before.push(all[i as int]));
        i += 1;
        assert(all.take(i as int) =~= before.push(all[i - 1]));
    }
    assert(all.take(i as int) =~= all);
    proof {
        order::lemma_sorted_views(r@, |a: GitFileModel, b: GitFileModel| file_le(a, b));
        lemma_files_len(ss@);
    }
    let sorted = sort(r);
    assert(order::views_of(sorted@).len() == sorted@.len());
    sorted
}

/// The lines of a text.
pub(crate) fn line_texts(s: &str) -> (r: Vec<String>)
    ensures
        scan::string_views(r@) == scan::lines(s@),
{
    let ls = split_lines(&to_chars(s));
    let ghost all = scan::views(ls@);
    let mut r: Vec<String> = Vec::new();
    let mut i: usize = 0;
    while i < ls.len()
        invariant
            all == scan::views(ls@),
            i <= ls@.len(),
            scan::string_views(r@) == all.take(i as int),
        decreases ls@.len() - i,
    {
        let ghost before = scan::string_views(r@);
        r.push(to_text(&ls[i]));
        assert(scan::string_views(r@) =~= before.push(all[i as int]));
        i += 1;
        assert(all.take(i as int) =~= before.push(all[i - 1]));
    }
    assert(all.take(i as int) =~= all);
    r
}

/// What the lower pane shows of a text that was asked for, or why there is none.
pub open spec fn pane_lines(shown: Result<String, String>, failure: Seq<char>) -> Seq<Seq<char>> {
    match shown {
        Ok(s) => scan::lines(s@),
        Err(e) => seq![failure + e@],
    }
}

fn make_pane(shown: Result<String, String>, failure: &str) -> (r: Vec<String>)
    ensures
        scan::string_views(r@) == pane_lines(shown, failure@),
{
    match shown {
        Ok(s) => line_texts(&s),
        Err(e) => {
            let r = vec![join2(failure, &e)];
            assert(scan::string_views(r@) =~= seq![failure@ + e@]);
            r
        },
    }
}

/// How far a page is.
pub open spec fn page_of(rows: u16) -> int {
    if rows >= 3 {
        rows - 2
    } else {
        1
    }
}

/// Where a key scrolls a pane of `len` lines.
pub open spec fn scroll_move(scroll: int, len: nat, rows: u16, a: Action) -> int {
    let last = if len > 0 {
        len - 1
    } else {
        0
    };
    match a {
        Action::PageUp => view::max(scroll - page_of(rows), 0),
        Action::PageDown => view::min(scroll + page_of(rows), last),
        _ => scroll,
    }
}

fn scroll_pane(scroll: usize, len: usize, rows: u16, a: Action) -> (r: usize)
    ensures
        r == scroll_move(scroll as int, len as nat, rows, a),
{
    let page: usize = if rows >= 3 {
        (rows - 2) as usize
    } else {
        1
    };
    let last: usize = if len > 0 {
        len - 1
    } else {
        0
    };
    match a {
        Action::PageUp => if scroll > page {
            scroll - page
        } else {
            0
        },
        Action::PageDown => if scroll >= last || last - scroll <= page {
            last
        } else {
            scroll + page
        },
        _ => scroll,
    }
}

// -------------------------------------------------------------- changes overlay

/// Where the repository is looked for: at the buffer's file, or at the tree's
/// root.
pub open spec fn probe_of(m: AppModel) -> Seq<char> {
    match m.buffer.path {
        Some(p) => p,
        None => m.tree.root,
    }
}

/// The overlay is closed, or the state of the repository asked for.
pub open spec fn changes_toggled(m: AppModel) -> (AppModel, Option<ErrandModel>) {
    if m.diff is Some {
        (AppModel { diff: None, ..m }, None)
    } else {
        (m, Some(ErrandModel::Status { probe: probe_of(m) }))
    }
}

/// The diff of the file under the cursor is asked for.
pub open spec fn diff_errand(v: GitModel, gutter: bool) -> ErrandModel {
    let f = v.files[v.cursor];
    ErrandModel::FileDiff {
        repo_root: v.repo_root,
        path: f.path,
        untracked: f.group == GitGroup::Untracked,
        gutter,
    }
}

/// The state of the repository is known: the overlay opens on the changed files.
pub open spec fn changes_known(
    m: AppModel,
    answer: Result<(String, Vec<StatusEntry>), String>,
) -> (AppModel, Option<ErrandModel>) {
    match answer {
        Err(e) => (app::said(m, "git: "@ + e@), None),
        Ok((repo_root, ss)) => if ss@.len() == 0 {
            (app::said(m, "Working tree clean"@), None)
        } else {
            let v = GitModel {
                files: files_of(ss@),
                cursor: 0,
                lines: Seq::empty(),
                scroll: 0,
                repo_root: repo_root@,
            };
            (AppModel { diff: Some(v), ..m }, Some(diff_errand(v, false)))
        },
    }
}

/// The place of a path in a list of files.
pub open spec fn file_place(fs: Seq<GitFileModel>, path: Seq<char>, i: int) -> Option<int>
    decreases fs.len() - i,
{
    if i < 0 || i >= fs.len() {
        None
    } else if paths::same_path(fs[i].path, path) {
        Some(i)
    } else {
        file_place(fs, path, i + 1)
    }
}

/// The changes of the buffer's file are asked for, if it has one.
pub open spec fn gutter_wanted(m: AppModel) -> (AppModel, Option<ErrandModel>) {
    match m.buffer.path {
        Some(path) => (m, Some(ErrandModel::Gutter { path })),
        None => (AppModel { git_status: Seq::empty(), ..m }, None),
    }
}

/// What follows once the overlay is up to date.
pub open spec fn then_gutter(m: AppModel, gutter: bool) -> (AppModel, Option<ErrandModel>) {
    if gutter {
        gutter_wanted(m)
    } else {
        (m, None)
    }
}

/// The overlay with other files, its cursor on the file that it was on, or on the
/// last one where that is gone.
pub open spec fn listed_again(v: GitModel, files: Seq<GitFileModel>) -> GitModel {
    GitModel {
        files,
        cursor: match file_place(files, v.files[v.cursor].path, 0) {
            Some(i) => i,
            None => files.len() - 1,
        },
        scroll: 0,
        ..v
    }
}

/// The state of the repository is known once more: the cursor stays on its file,
/// or goes to the last one.
pub open spec fn changes_again(
    m: AppModel,
    answer: Result<Vec<StatusEntry>, String>,
    gutter: bool,
) -> (AppModel, Option<ErrandModel>) {
    match m.diff {
        None => then_gutter(m, gutter),
        Some(v) => match answer {
            Err(e) => then_gutter(
                AppModel { diff: None, ..app::said(m, "git: "@ + e@) },
                gutter,
            ),
            Ok(ss) => if ss@.len() == 0 {
                then_gutter(
                    AppModel { diff: None, ..app::said(m, "Working tree clean"@) },
                    gutter,
                )
            } else {
                let next = listed_again(v, files_of(ss@));
                (AppModel { diff: Some(next), ..m }, Some(diff_errand(next, gutter)))
            },
        },
    }
}

/// The diff of the file under the cursor is known.
pub open spec fn diff_known(m: AppModel, shown: Result<String, String>, gutter: bool) -> (
    AppModel,
    Option<ErrandModel>,
) {
    match m.diff {
        None => then_gutter(m, gutter),
        Some(v) => then_gutter(
            AppModel {
                diff: Some(
                    GitModel { lines: pane_lines(shown, "git diff failed: "@), ..v },
                ),
                ..m
            },
            gutter,
        ),
    }
}

/// What a key does in the overlay.
pub open spec fn changes_key(m: AppModel, a: Action, rows: u16) -> (AppModel, Option<ErrandModel>) {
    match m.diff {
        None => (m, None),
        Some(v) => {
            let path = v.files[v.cursor].path;
            if a == Action::Insert('s') {
                (m, Some(ErrandModel::Stage { repo_root: v.repo_root, path }))
            } else if a == Action::Insert('u') {
                (m, Some(ErrandModel::Unstage { repo_root: v.repo_root, path }))
            } else if a == Action::Insert('c') {
                (
                    AppModel {
                        prompt: Some(
                            PromptModel {
                                label: "Commit message:"@,
                                text: Seq::empty(),
                                kind: PromptKindModel::CommitMessage { repo_root: v.repo_root },
                            },
                        ),
                        ..m
                    },
                    None,
                )
            } else {
                let cursor = dialogs::list_move(v.cursor, v.files.len(), a);
                if cursor != v.cursor {
                    let next = GitModel { cursor, scroll: 0, ..v };
                    (AppModel { diff: Some(next), ..m }, Some(diff_errand(next, false)))
                } else {
                    (
                        AppModel {
                            diff: Some(
                                GitModel {
                                    scroll: scroll_move(v.scroll, v.lines.len(), rows, a),
                                    ..v
                                },
                            ),
                            ..m
                        },
                        None,
                    )
                }
            }
        },
    }
}

/// The overlay is to be brought up to date, where it is open.
pub open spec fn refresh_wanted(m: AppModel, gutter: bool) -> (AppModel, Option<ErrandModel>) {
    match m.diff {
        None => then_gutter(m, gutter),
        Some(v) => (m, Some(ErrandModel::Refresh { repo_root: v.repo_root, gutter })),
    }
}

/// A file was staged or unstaged, or not.
pub open spec fn moved_to_index(
    m: AppModel,
    done: Seq<char>,
    path: Seq<char>,
    answer: Result<(), String>,
) -> (AppModel, Option<ErrandModel>) {
    match answer {
        Ok(_) => refresh_wanted(app::said(m, done + path), false),
        Err(e) => (app::said(m, e@), None),
    }
}

/// A commit was made, or not.
pub open spec fn commit_made(m: AppModel, message: Seq<char>, answer: Result<(), String>) -> (
    AppModel,
    Option<ErrandModel>,
) {
    match answer {
        Ok(_) => refresh_wanted(app::said(m, "Committed: "@ + message), true),
        Err(e) => (app::said(m, e@), None),
    }
}

impl App {
    fn probe(&self) -> (r: String)
        ensures
            r@ == probe_of(self@),
    {
        match self.buffer.path() {
            Some(p) => owned(p),
            None => owned(&self.tree.root),
        }
    }

    pub(crate) fn toggle_git_diff(&mut self) -> (r: Option<Errand>)
        requires
            app::steady(old(self)@),
        ensures
            app::steady(final(self)@),
            (final(self)@, app::errand_view(r)) == changes_toggled(old(self)@),
    {
        if self.diff.is_some() {
            self.diff = None;
            return None;
        }
        Some(Errand::Status { probe: self.probe() })
    }

    fn ask_diff(&self, gutter: bool) -> (r: Option<Errand>)
        requires
            self@.diff matches Some(v) && 0 <= v.cursor < v.files.len(),
        ensures
            self@.diff matches Some(v) && app::errand_view(r) == Some(diff_errand(v, gutter)),
    {
        match &self.diff {
            Some(v) => {
                let f = &v.files[v.cursor];
                assert(v@.files[v.cursor as int] == f@);
                Some(
                    Errand::FileDiff {
                        repo_root: owned(&v.repo_root),
                        path: owned(&f.path),
                        untracked: f.group == GitGroup::Untracked,
                        gutter,
                    },
                )
            },
            None => None,
        }
    }

    /// Takes the state of the repository, with its root.
    pub fn status_known(&mut self, answer: Result<(String, Vec<StatusEntry>), String>) -> (r:
        Option<Errand>)
        requires
            app::steady(old(self)@),
        ensures
            app::steady(final(self)@),
            (final(self)@, app::errand_view(r)) == changes_known(old(self)@, answer),
    {
        match answer {
            Err(e) => {
                self.status = join2("git: ", &e);
                None
            },
            Ok((repo_root, ss)) => {
                if ss.len() == 0 {
                    self.status = owned("Working tree clean");
                    return None;
                }
                let files = make_files(&ss);
                let none: Vec<String> = Vec::new();
                assert(scan::string_views(none@) =~= Seq::<Seq<char>>::empty());
                self.diff = Some(
                    GitView { files, cursor: 0, diff_lines: none, diff_scroll: 0, repo_root },
                );
                self.ask_diff(false)
            },
        }
    }

    fn ask_gutter(&mut self) -> (r: Option<Errand>)
        ensures
            (final(self)@, app::errand_view(r)) == gutter_wanted(old(self)@),
    {
        let path = match self.buffer.path() {
            Some(p) => Some(owned(p)),
            None => None,
        };
        match path {
            Some(path) => Some(Errand::Gutter { path }),
            None => {
                self.git_status = Vec::new();
                assert(crate::git::change_pairs(self.git_status@) =~= Seq::empty());
                None
            },
        }
    }

    fn go_on(&mut self, gutter: bool) -> (r: Option<Errand>)
        ensures
            (final(self)@, app::errand_view(r)) == then_gutter(old(self)@, gutter),
    {
        if gutter {
            self.ask_gutter()
        } else {
            None
        }
    }

    /// Takes the changes of the buffer's file.
    pub fn gutter_known(&mut self, diff: Result<String, String>)
        requires
            app::steady(old(self)@),
        ensures
            app::steady(final(self)@),
            final(self)@ == (AppModel { git_status: app::gutter_of(diff), ..old(self)@ }),
    {
        self.set_gutter(diff);
    }

    fn find_file(files: &Vec<GitFile>, path: &str) -> (r: Option<usize>)
        ensures
            match r {
                Some(i) => file_place(order::views_of(files@), path@, 0) == Some(i as int) && i
                    < files@.len(),
                None => file_place(order::views_of(files@), path@, 0) is None,
            },
    {
        let ghost fs = order::views_of(files@);
        let mut i: usize = 0;
        while i < files.len()
            invariant
                fs == order::views_of(files@),
                i <= files@.len(),
                file_place(fs, path@, 0) == file_place(fs, path@, i as int),
            decreases files@.len() - i,
        {
            assert(fs[i as int] == files@[i as int]@);
            if is_same_path(&files[i].path, path) {
                return Some(i);
            }
            i += 1;
        }
        None
    }

    /// Takes the state of the repository once more.
    pub fn refreshed(&mut self, answer: Result<Vec<StatusEntry>, String>, gutter: bool) -> (r:
        Option<Errand>)
        requires
            app::steady(old(self)@),
        ensures
            app::steady(final(self)@),
            (final(self)@, app::errand_view(r)) == changes_again(old(self)@, answer, gutter),
    {
        if self.diff.is_none() {
            return self.go_on(gutter);
        }
        match answer {
            Err(e) => self.close_changes(join2("git: ", &e), gutter),
            Ok(ss) => if ss.len() == 0 {
                self.close_changes(owned("Working tree clean"), gutter)
            } else {
                self.relist(&ss, gutter)
            },
        }
    }

    fn close_changes(&mut self, status: String, gutter: bool) -> (r: Option<Errand>)
        requires
            app::steady(old(self)@),
        ensures
            app::steady(final(self)@),
            (final(self)@, app::errand_view(r)) == then_gutter(
                AppModel { diff: None, ..app::said(old(self)@, status@) },
                gutter,
            ),
    {
        self.status = status;
        self.diff = None;
        self.go_on(gutter)
    }

    fn relist(&mut self, ss: &Vec<StatusEntry>, gutter: bool) -> (r: Option<Errand>)
        requires
            app::steady(old(self)@),
            old(self)@.diff is Some,
            ss@.len() > 0,
        ensures
            app::steady(final(self)@),
            (final(self)@, app::errand_view(r)) == ({
                let next = listed_again(old(self)@.diff->Some_0, files_of(ss@));
                (
                    AppModel { diff: Some(next), ..old(self)@ },
                    Some(diff_errand(next, gutter)),
                )
            }),
    {
        let previous = match &self.diff {
            Some(v) => {
                assert(v@.files[v.cursor as int] == v.files@[v.cursor as int]@);
                owned(&v.files[v.cursor].path)
            },
            None => String::new(),
        };
        let files = make_files(ss);
        let cursor: usize = match Self::find_file(&files, &previous) {
            Some(i) => i,
            None => files.len() - 1,
        };
        self.show_files(files, cursor);
        self.ask_diff(gutter)
    }

    fn show_files(&mut self, files: Vec<GitFile>, cursor: usize)
        requires
            old(self)@.diff is Some,
        ensures
            final(self)@ == (AppModel {
                diff: Some(
                    GitModel {
                        files: order::views_of(files@),
                        cursor: cursor as int,
                        scroll: 0,
                        ..old(self)@.diff->Some_0
                    },
                ),
                ..old(self)@
            }),
    {
        match &mut self.diff {
            Some(v) => {
                v.files = files;
                v.cursor = cursor;
                v.diff_scroll = 0;
            },
            None => {},
        }
    }

    /// Takes the diff of the file under the overlay's cursor.
    pub fn diffed(&mut self, shown: Result<String, String>, gutter: bool) -> (r: Option<Errand>)
        requires
            app::steady(old(self)@),
        ensures
            app::steady(final(self)@),
            (final(self)@, app::errand_view(r)) == diff_known(old(self)@, shown, gutter),
    {
        let lines = make_pane(shown, "git diff failed: ");
        match &mut self.diff {
            Some(v) => {
                v.diff_lines = lines;
            },
            None => {},
        }
        self.go_on(gutter)
    }

    pub(crate) fn drive_diff(&mut self, a: Action, rows: u16) -> (r: Option<Errand>)
        requires
            app::steady(old(self)@),
        ensures
            app::steady(final(self)@),
            (final(self)@, app::errand_view(r)) == changes_key(old(self)@, a, rows),
    {
        let ghost m = self@;
        let mut changed = false;
        match &mut self.diff {
            None => {
                return None;
            },
            Some(v) => {
                assert(v@.files[v.cursor as int] == v.files@[v.cursor as int]@);
                if a == Action::Insert('s') {
                    return Some(
                        Errand::Stage {
                            repo_root: owned(&v.repo_root),
                            path: owned(&v.files[v.cursor].path),
                        },
                    );
                }
                if a == Action::Insert('u') {
                    return Some(
                        Errand::Unstage {
                            repo_root: owned(&v.repo_root),
                            path: owned(&v.files[v.cursor].path),
                        },
                    );
                }
                if a == Action::Insert('c') {
                    let none = String::new();
                    assert(none@ =~= Seq::<char>::empty());
                    self.prompt = Some(
                        Prompt {
                            label: "Commit message:",
                            buffer: none,
                            kind: PromptKind::CommitMessage { repo_root: owned(&v.repo_root) },
                        },
                    );
                    return None;
                }
                let cursor: usize = move_in_list(v.cursor, v.files.len(), a);
                if cursor != v.cursor {
                    v.cursor = cursor;
                    v.diff_scroll = 0;
                    changed = true;
                } else {
                    v.diff_scroll = scroll_pane(v.diff_scroll, v.diff_lines.len(), rows, a);
                }
            },
        }
        assert(self@ == changes_key(m, a, rows).0);
        if changed {
            self.ask_diff(false)
        } else {
            None
        }
    }

    fn ask_refresh(&mut self, gutter: bool) -> (r: Option<Errand>)
        ensures
            (final(self)@, app::errand_view(r)) == refresh_wanted(old(self)@, gutter),
    {
        let repo_root = match &self.diff {
            Some(v) => owned(&v.repo_root),
            None => {
                return self.go_on(gutter);
            },
        };
        Some(Errand::Refresh { repo_root, gutter })
    }

    /// Takes what came of staging a file.
    pub fn staged(&mut self, path: &str, answer: Result<(), String>) -> (r: Option<Errand>)
        requires
            app::steady(old(self)@),
        ensures
            app::steady(final(self)@),
            (final(self)@, app::errand_view(r)) == moved_to_index(
                old(self)@,
                "Staged "@,
                path@,
                answer,
            ),
    {
        match answer {
            Ok(_) => {
                self.status = join2("Staged ", path);
                self.ask_refresh(false)
            },
            Err(e) => {
                self.status = e;
                None
            },
        }
    }

    /// Takes what came of unstaging a file.
    pub fn unstaged(&mut self, path: &str, answer: Result<(), String>) -> (r: Option<Errand>)
        requires
            app::steady(old(self)@),
        ensures
            app::steady(final(self)@),
            (final(self)@, app::errand_view(r)) == moved_to_index(
                old(self)@,
                "Unstaged "@,
                path@,
                answer,
            ),
    {
        match answer {
            Ok(_) => {
                self.status = join2("Unstaged ", path);
                self.ask_refresh(false)
            },
            Err(e) => {
                self.status = e;
                None
            },
        }
    }

    /// Takes what came of a commit.
    pub fn committed(&mut self, message: &str, answer: Result<(), String>) -> (r: Option<Errand>)
        requires
            app::steady(old(self)@),
        ensures
            app::steady(final(self)@),
            (final(self)@, app::errand_view(r)) == commit_made(old(self)@, message@, answer),
    {
        match answer {
            Ok(_) => {
                self.status = join2("Committed: ", message);
                self.ask_refresh(true)
            },
            Err(e) => {
                self.status = e;
                None
            },
        }
    }
}

// -------------------------------------------------------------- history overlay

/// The overlay is closed, or the commits asked for.
pub open spec fn history_toggled(m: AppModel) -> (AppModel, Option<ErrandModel>) {
    if m.history is Some {
        (AppModel { history: None, ..m }, None)
    } else {
        (m, Some(ErrandModel::Log { probe: probe_of(m) }))
    }
}

/// What the commit under the cursor changed is asked for.
pub open spec fn show_errand(v: HistoryModel) -> ErrandModel {
    ErrandModel::Show { repo_root: v.repo_root, sha: v.entries[v.cursor].sha }
}

/// The commits are known: the overlay opens on them.
pub open spec fn history_known(
    m: AppModel,
    answer: Result<(String, Vec<LogEntry>), String>,
) -> (AppModel, Option<ErrandModel>) {
    match answer {
        Err(e) => (app::said(m, "git: "@ + e@), None),
        Ok((repo_root, entries)) => if entries@.len() == 0 {
            (app::said(m, "No commits yet"@), None)
        } else {
            let v = HistoryModel {
                entries: order::views_of(entries@),
                cursor: 0,
                lines: Seq::empty(),
                scroll: 0,
                repo_root: repo_root@,
            };
            (AppModel { history: Some(v), ..m }, Some(show_errand(v)))
        },
    }
}

/// What the commit under the cursor changed is known.
pub open spec fn commit_known(m: AppModel, shown: Result<String, String>) -> AppModel {
    match m.history {
        None => m,
        Some(v) => AppModel {
            history: Some(
                HistoryModel { lines: pane_lines(shown, "git show failed: "@), ..v },
            ),
            ..m
        },
    }
}

/// What a key does in the overlay.
pub open spec fn history_key(m: AppModel, a: Action, rows: u16) -> (AppModel, Option<ErrandModel>) {
    match m.history {
        None => (m, None),
        Some(v) => {
            let cursor = dialogs::list_move(v.cursor, v.entries.len(), a);
            if cursor != v.cursor {
                let next = HistoryModel { cursor, scroll: 0, ..v };
                (AppModel { history: Some(next), ..m }, Some(show_errand(next)))
            } else {
                (
                    AppModel {
                        history: Some(
                            HistoryModel {
                                scroll: scroll_move(v.scroll, v.lines.len(), rows, a),
                                ..v
                            },
                        ),
                        ..m
                    },
                    None,
                )
            }
        },
    }
}

impl App {
    pub(crate) fn toggle_history(&mut self) -> (r: Option<Errand>)
        requires
            app::steady(old(self)@),
        ensures
            app::steady(final(self)@),
            (final(self)@, app::errand_view(r)) == history_toggled(old(self)@),
    {
        if self.history.is_some() {
            self.history = None;
            return None;
        }
        Some(Errand::Log { probe: self.probe() })
    }

    fn ask_commit(&self) -> (r: Option<Errand>)
        requires
            self@.history matches Some(v) && 0 <= v.cursor < v.entries.len(),
        ensures
            self@.history matches Some(v) && app::errand_view(r) == Some(show_errand(v)),
    {
        match &self.history {
            Some(v) => {
                assert(v@.entries[v.cursor as int] == v.entries@[v.cursor as int]@);
                Some(
                    Errand::Show {
                        repo_root: owned(&v.repo_root),
                        sha: owned(&v.entries[v.cursor].sha),
                    },
                )
            },
            None => None,
        }
    }

    /// Takes the commits of the repository, with its root.
    pub fn log_known(&mut self, answer: Result<(String, Vec<LogEntry>), String>) -> (r: Option<
        Errand,
    >)
        requires
            app::steady(old(self)@),
        ensures
            app::steady(final(self)@),
            (final(self)@, app::errand_view(r)) == history_known(old(self)@, answer),
    {
        match answer {
            Err(e) => {
                self.status = join2("git: ", &e);
                None
            },
            Ok((repo_root, entries)) => {
                if entries.len() == 0 {
                    self.status = owned("No commits yet");
                    return None;
                }
                let none: Vec<String> = Vec::new();
                assert(scan::string_views(none@) =~= Seq::<Seq<char>>::empty());
                self.history = Some(
                    HistoryView {
                        entries,
                        cursor: 0,
                        commit_lines: none,
                        commit_scroll: 0,
                        repo_root,
                    },
                );
                self.ask_commit()
            },
        }
    }

    /// Takes what the commit under the overlay's cursor changed.
    pub fn shown(&mut self, shown: Result<String, String>)
        requires
            app::steady(old(self)@),
        ensures
            app::steady(final(self)@),
            final(self)@ == commit_known(old(self)@, shown),
    {
        let lines = make_pane(shown, "git show failed: ");
        match &mut self.history {
            Some(v) => {
                v.commit_lines = lines;
            },
            None => {},
        }
    }

    pub(crate) fn drive_history(&mut self, a: Action, rows: u16) -> (r: Option<Errand>)
        requires
            app::steady(old(self)@),
        ensures
            app::steady(final(self)@),
            (final(self)@, app::errand_view(r)) == history_key(old(self)@, a, rows),
    {
        let ghost m = self@;
        let mut changed = false;
        match &mut self.history {
            None => {
                return None;
            },
            Some(v) => {
                let cursor: usize = move_in_list(v.cursor, v.entries.len(), a);
                if cursor != v.cursor {
                    v.cursor = cursor;
                    v.commit_scroll = 0;
                    changed = true;
                } else {
                    v.commit_scroll = scroll_pane(v.commit_scroll, v.commit_lines.len(), rows, a);
                }
            },
        }
        assert(self@ == history_key(m, a, rows).0);
        if changed {
            self.ask_commit()
        } else {
            None
        }
    }
}

} // verus!
