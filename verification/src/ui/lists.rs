//! The panes that show lists: the file tree, the changed files and the commits with
//! what is shown of each, and the files that match.

use vstd::prelude::*;

use super::{
    add_line, empty_line, line_with, pad_right, row_at, scroll_top, truncate_to, Span,
    SpanModel,
};
use crate::app;
use crate::app::{GitFile, GitGroup, GitView, HistoryView, OpenFileView};
use crate::git::LogEntry;
use crate::order;
use crate::paths;
use crate::paths::file_name_of;
use crate::scan;
use crate::scan::text_starts_with;
use crate::text::{join2, join3, owned};
use crate::theme;
use crate::theme::Style;
use crate::tree;
use crate::tree::{FileTree, TreeEntry};
use crate::ui;

use vstd::view::View as _;

verus! {

// ------------------------------------------------------------------------- tree

/// The last name of the root, or the root itself.
pub open spec fn root_label(root: Seq<char>) -> Seq<char> {
    match paths::file_name(root) {
        Some(n) => n,
        None => root,
    }
}

/// Two spaces for each level.
pub open spec fn indent(depth: int) -> Seq<char>
    decreases depth,
{
    if depth <= 0 {
        Seq::empty()
    } else {
        indent(depth - 1) + "  "@
    }
}

fn indentation(depth: usize) -> (r: String)
    ensures
        r@ == indent(depth as int),
{
    let mut r = String::new();
    let mut i: usize = 0;
    assert(r@ =~= indent(0));
    while i < depth
        invariant
            i <= depth,
            r@ == indent(i as int),
        decreases depth - i,
    {
        r.append("  ");
        i += 1;
    }
    r
}

/// What stands before the name of a row.
pub open spec fn icon(row: tree::RowModel) -> Seq<char> {
    if row.is_parent_link {
        "↰ "@
    } else if row.is_dir {
        if row.expanded {
            "▾ "@
        } else {
            "▸ "@
        }
    } else {
        "  "@
    }
}

/// A row of the tree.
pub open spec fn tree_row(t: tree::TreeModel, i: int, width: int) -> Seq<SpanModel> {
    if i < t.rows.len() {
        let row = t.rows[i];
        ui::single(
            ui::truncated(indent(row.depth) + icon(row) + row.name, width),
            if i == t.cursor {
                theme::bar_style()
            } else if row.is_dir {
                theme::dir_style()
            } else {
                theme::editor_style()
            },
        )
    } else {
        Seq::empty()
    }
}

/// The pane of the tree: the root's name, then the rows.
pub open spec fn tree_pane(t: tree::TreeModel, width: int, rows: nat) -> Seq<Seq<SpanModel>> {
    seq![
        ui::single(
            ui::truncated(" "@ + root_label(t.root) + " "@, width),
            theme::bar_style(),
        ),
    ] + Seq::new(rows, |i: int| tree_row(t, t.top + i, width))
}

fn tree_line(entry: &TreeEntry, selected: bool, width: usize) -> (r: Vec<Span>)
    ensures
        order::views_of(r@) == ui::single(
            ui::truncated(indent(entry@.depth) + icon(entry@) + entry@.name, width as int),
            if selected {
                theme::bar_style()
            } else if entry@.is_dir {
                theme::dir_style()
            } else {
                theme::editor_style()
            },
        ),
{
    let icon = if entry.is_parent_link {
        "↰ "
    } else if entry.is_dir {
        if entry.expanded {
            "▾ "
        } else {
            "▸ "
        }
    } else {
        "  "
    };
    let style = if selected {
        theme::tree_selected()
    } else if entry.is_dir {
        theme::tree_dir()
    } else {
        theme::tree()
    };
    let indent = indentation(entry.depth);
    let text = join3(&indent, icon, &entry.name);
    line_with(truncate_to(&text, width), style)
}

/// The lines of the tree, scrolled so that the selected row is visible.
pub fn render_tree(t: &mut FileTree, width: u16, height: u16) -> (r: Vec<Vec<Span>>)
    requires
        tree::tree_ok(old(t)@),
    ensures
        tree::tree_ok(final(t)@),
        final(t)@ == (tree::TreeModel {
            top: tree::row_scrolled(
                old(t)@.top,
                old(t)@.cursor,
                app::text_rows(height) as int,
            ),
            ..old(t)@
        }),
        ui::lines_view(r@) == tree_pane(
            final(t)@,
            width as int,
            app::text_rows(height) as nat,
        ),
{
    let rows: usize = if height > 0 {
        (height - 1) as usize
    } else {
        0
    };
    t.scroll_into_view(rows);
    let ghost m = t@;
    let ghost all = tree_pane(m, width as int, rows as nat);
    let label = match file_name_of(&t.root) {
        Some(n) => n,
        None => owned(&t.root),
    };
    let mut lines: Vec<Vec<Span>> = Vec::new();
    let head = join3(" ", &label, " ");
    add_line(&mut lines, line_with(truncate_to(&head, width as usize), theme::status_bar()));
    assert(ui::lines_view(lines@) =~= all.take(1));
    let mut i: usize = 0;
    while i < rows
        invariant
            i <= rows,
            rows <= u16::MAX,
            t@ == m,
            all == tree_pane(m, width as int, rows as nat),
            ui::lines_view(lines@) == all.take(i + 1),
        decreases rows - i,
    {
        let line = match row_at(t.top, i, t.entries.len()) {
            Some(k) => {
                assert(m.rows[k as int] == t.entries@[k as int]@);
                tree_line(&t.entries[k], k == t.cursor, width as usize)
            },
            None => empty_line(),
        };
        assert(order::views_of(line@) == all[i + 1]);
        add_line(&mut lines, line);
        i += 1;
        assert(all.take(i + 1) =~= all.take(i as int).push(all[i as int]));
    }
    assert(all.take(i + 1) =~= all);
    lines
}

// ---------------------------------------------------------------------- changes

/// The style of a changed file, by its state.
pub open spec fn state_style(staged: char, unstaged: char) -> Style {
    let c = if unstaged != ' ' {
        unstaged
    } else {
        staged
    };
    if c == 'A' {
        theme::in_color(theme::GREEN)
    } else if c == 'M' {
        theme::in_color(theme::YELLOW)
    } else if c == 'D' {
        theme::in_color(theme::RED)
    } else if c == '?' {
        theme::in_color(theme::VIOLET)
    } else {
        theme::editor_style()
    }
}

/// The style of a changed file: what is not staged counts before what is.
pub fn git_status_style(staged: char, unstaged: char) -> (r: Style)
    ensures
        r == state_style(staged, unstaged),
{
    let c = if unstaged != ' ' {
        unstaged
    } else {
        staged
    };
    match c {
        'A' => Style::plain().with_fg(theme::ok()),
        'M' => Style::plain().with_fg(theme::warn()),
        'D' => Style::plain().with_fg(theme::error()),
        '?' => Style::plain().with_fg(theme::diagnostic(Some(4))),
        _ => theme::tree(),
    }
}

/// The style of a line of a diff.
pub open spec fn diff_style(line: Seq<char>) -> Style {
    if scan::starts_with(line, "@@"@) {
        theme::in_color(theme::CYAN)
    } else if scan::starts_with(line, "+++"@) || scan::starts_with(line, "---"@) {
        theme::in_color(theme::VIOLET)
    } else if scan::starts_with(line, "+"@) {
        theme::in_color(theme::GREEN)
    } else if scan::starts_with(line, "-"@) {
        theme::in_color(theme::RED)
    } else {
        theme::editor_style()
    }
}

/// The style of a line of a diff, by what it starts with.
pub fn diff_line_style(line: &str) -> (r: Style)
    ensures
        r == diff_style(line@),
{
    if text_starts_with(line, "@@") {
        Style::plain().with_fg(theme::diagnostic(Some(3)))
    } else if text_starts_with(line, "+++") || text_starts_with(line, "---") {
        Style::plain().with_fg(theme::diagnostic(Some(4)))
    } else if text_starts_with(line, "+") {
        Style::plain().with_fg(theme::ok())
    } else if text_starts_with(line, "-") {
        Style::plain().with_fg(theme::error())
    } else {
        theme::editor()
    }
}

/// A row of the list of changed files.
#[derive(Clone, Copy, Debug, PartialEq, Eq, Structural)]
pub enum ChangeRow {
    Header(GitGroup),
    /// A file, by its place in the list of files.
    File(usize),
}

/// The rows for the first `n` files: each section starts with its headline.
pub open spec fn change_rows(files: Seq<app::GitFileModel>, n: int) -> Seq<ChangeRow>
    decreases n,
{
    if n <= 0 {
        Seq::empty()
    } else {
        let before = change_rows(files, n - 1);
        if n == 1 || files[n - 1].group != files[n - 2].group {
            before.push(ChangeRow::Header(files[n - 1].group)).push(
                ChangeRow::File((n - 1) as usize),
            )
        } else {
            before.push(ChangeRow::File((n - 1) as usize))
        }
    }
}

/// The first row from `i` on that shows a file; the first row of all if none does.
pub open spec fn row_of_file(rows: Seq<ChangeRow>, file: int, i: int) -> int
    decreases rows.len() - i,
{
    if i < 0 || i >= rows.len() {
        0
    } else if rows[i] == ChangeRow::File(file as usize) {
        i
    } else {
        row_of_file(rows, file, i + 1)
    }
}

fn make_change_rows(files: &Vec<GitFile>) -> (r: Vec<ChangeRow>)
    ensures
        r@ == change_rows(order::views_of(files@), files@.len() as int),
        forall|i: int|
            #![trigger r@[i]]
            0 <= i < r@.len() ==> (r@[i] matches ChangeRow::File(k) ==> k < files@.len()),
{
    let ghost ms = order::views_of(files@);
    let mut rows: Vec<ChangeRow> = Vec::new();
    let mut i: usize = 0;
    while i < files.len()
        invariant
            i <= files@.len(),
            ms == order::views_of(files@),
            rows@ == change_rows(ms, i as int),
            forall|j: int|
                #![trigger rows@[j]]
                0 <= j < rows@.len() ==> (rows@[j] matches ChangeRow::File(k) ==> k < files@.len()),
        decreases files@.len() - i,
    {
        assert(ms[i as int] == files@[i as int]@);
        if i == 0 || files[i].group != files[i - 1].group {
            rows.push(ChangeRow::Header(files[i].group));
        }
        rows.push(ChangeRow::File(i));
        i += 1;
    }
    rows
}

fn find_file_row(rows: &Vec<ChangeRow>, file: usize) -> (r: usize)
    ensures
        r == row_of_file(rows@, file as int, 0),
{
    let mut i: usize = 0;
    while i < rows.len()
        invariant
            i <= rows@.len(),
            row_of_file(rows@, file as int, i as int) == row_of_file(rows@, file as int, 0),
        decreases rows@.len() - i,
    {
        if rows[i] == ChangeRow::File(file) {
            return i;
        }
        i += 1;
    }
    0
}

/// The headline of a section.
pub open spec fn group_header(g: GitGroup) -> Seq<char> {
    match g {
        GitGroup::Staged => "Staged"@,
        GitGroup::Both => "Staged + Modified"@,
        GitGroup::Modified => "Modified"@,
        GitGroup::Untracked => "Untracked"@,
    }
}

/// A row of the list of changed files.
pub open spec fn change_line(m: app::GitModel, row: ChangeRow, width: int) -> Seq<SpanModel> {
    match row {
        ChangeRow::Header(g) => ui::single(
            ui::truncated(" "@ + group_header(g) + " "@, width),
            theme::hint_style(),
        ),
        ChangeRow::File(k) => {
            let f = m.files[k as int];
            ui::single(
                ui::truncated(" "@ + seq![f.staged, f.unstaged] + " "@ + f.path, width),
                if k == m.cursor {
                    theme::bar_style()
                } else {
                    state_style(f.staged, f.unstaged)
                },
            )
        },
    }
}

/// The list of changed files, shown so that the selected one is visible.
pub open spec fn changes_pane(m: app::GitModel, width: int, height: nat) -> Seq<Seq<SpanModel>> {
    let rows = change_rows(m.files, m.files.len() as int);
    let top = ui::list_top(row_of_file(rows, m.cursor, 0), height as int, rows.len() as int);
    Seq::new(
        height,
        |i: int|
            if top + i < rows.len() {
                change_line(m, rows[top + i], width)
            } else {
                Seq::empty()
            },
    )
}

fn file_line(f: &GitFile, selected: bool, width: usize) -> (r: Vec<Span>)
    ensures
        order::views_of(r@) == ui::single(
            ui::truncated(" "@ + seq![f@.staged, f@.unstaged] + " "@ + f@.path, width as int),
            if selected {
                theme::bar_style()
            } else {
                state_style(f@.staged, f@.unstaged)
            },
        ),
{
    let mut text = owned(" ");
    text.push(f.staged);
    text.push(f.unstaged);
    assert(text@ =~= " "@ + seq![f@.staged, f@.unstaged]);
    text.append(" ");
    text.append(&f.path);
    let style = if selected {
        theme::tree_selected()
    } else {
        git_status_style(f.staged, f.unstaged)
    };
    line_with(truncate_to(&text, width), style)
}

/// The lines of the list of changed files.
pub fn render_git_files(v: &GitView, width: u16, height: u16) -> (r: Vec<Vec<Span>>)
    ensures
        ui::lines_view(r@) == changes_pane(v@, width as int, height as nat),
{
    let ghost m = v@;
    let ghost all = changes_pane(m, width as int, height as nat);
    let rows = make_change_rows(&v.files);
    let top: usize = scroll_top(find_file_row(&rows, v.cursor), height as usize, rows.len());
    let mut lines: Vec<Vec<Span>> = Vec::new();
    let mut i: usize = 0;
    assert(ui::lines_view(lines@) =~= all.take(0));
    while i < height as usize
        invariant
            i <= height,
            m == v@,
            rows@ == change_rows(m.files, m.files.len() as int),
            forall|j: int|
                #![trigger rows@[j]]
                0 <= j < rows@.len() ==> (rows@[j] matches ChangeRow::File(k) ==> k
                    < v.files@.len()),
            top == ui::list_top(
                row_of_file(rows@, m.cursor, 0),
                height as int,
                rows@.len() as int,
            ),
            all == changes_pane(m, width as int, height as nat),
            ui::lines_view(lines@) == all.take(i as int),
        decreases height - i,
    {
        let line = match row_at(top, i, rows.len()) {
            Some(k) => match rows[k] {
                ChangeRow::Header(g) => {
                    let text = join3(" ", g.header(), " ");
                    line_with(truncate_to(&text, width as usize), theme::status_hint())
                },
                ChangeRow::File(f) => {
                    assert(m.files[f as int] == v.files@[f as int]@);
                    file_line(&v.files[f], f == v.cursor, width as usize)
                },
            },
            None => empty_line(),
        };
        assert(order::views_of(line@) == all[i as int]);
        add_line(&mut lines, line);
        i += 1;
        assert(all.take(i as int) =~= all.take(i - 1).push(all[i - 1]));
    }
    assert(all.take(i as int) =~= all);
    lines
}

/// Lines of text from `top` on, each in its own style.
pub open spec fn painted(
    lines: Seq<Seq<char>>,
    top: int,
    width: int,
    height: nat,
    style: spec_fn(Seq<char>) -> Style,
) -> Seq<Seq<SpanModel>> {
    Seq::new(
        height,
        |i: int|
            if top + i < lines.len() {
                ui::single(ui::truncated(lines[top + i], width), style(lines[top + i]))
            } else {
                Seq::empty()
            },
    )
}

/// The lines of the changes to the selected file.
pub fn render_git_diff(v: &GitView, width: u16, height: u16) -> (r: Vec<Vec<Span>>)
    ensures
        ui::lines_view(r@) == painted(
            v@.lines,
            v@.scroll,
            width as int,
            height as nat,
            |s: Seq<char>| diff_style(s),
        ),
{
    let ghost f = |s: Seq<char>| diff_style(s);
    let ghost all = painted(v@.lines, v@.scroll, width as int, height as nat, f);
    let mut lines: Vec<Vec<Span>> = Vec::new();
    let mut i: usize = 0;
    assert(ui::lines_view(lines@) =~= all.take(0));
    while i < height as usize
        invariant
            i <= height,
            f == (|s: Seq<char>| diff_style(s)),
            all == painted(v@.lines, v@.scroll, width as int, height as nat, f),
            ui::lines_view(lines@) == all.take(i as int),
        decreases height - i,
    {
        let line = match row_at(v.diff_scroll, i, v.diff_lines.len()) {
            Some(k) => {
                assert(v@.lines[k as int] == v.diff_lines@[k as int]@);
                line_with(
                    truncate_to(&v.diff_lines[k], width as usize),
                    diff_line_style(&v.diff_lines[k]),
                )
            },
            None => empty_line(),
        };
        assert(order::views_of(line@) == all[i as int]);
        add_line(&mut lines, line);
        i += 1;
        assert(all.take(i as int) =~= all.take(i - 1).push(all[i - 1]));
    }
    assert(all.take(i as int) =~= all);
    lines
}

/// The columns of a list beside what is shown of its selected entry: as many as are
/// wanted, but with room left for that.
pub open spec fn list_columns(wanted: u16, width: u16) -> u16 {
    let room: u16 = if width > 20 {
        (width - 20) as u16
    } else {
        0
    };
    if wanted < room {
        wanted
    } else {
        room
    }
}

/// The columns of the list of changed files.
pub fn changes_width(width: u16) -> (r: u16)
    ensures
        r == list_columns(36, width),
{
    list_width(36, width)
}

/// The columns of the list of commits.
pub fn history_width(width: u16) -> (r: u16)
    ensures
        r == list_columns(48, width),
{
    list_width(48, width)
}

fn list_width(wanted: u16, width: u16) -> (r: u16)
    ensures
        r == list_columns(wanted, width),
{
    let room: u16 = if width > 20 {
        width - 20
    } else {
        0
    };
    if wanted < room {
        wanted
    } else {
        room
    }
}

// ---------------------------------------------------------------------- history

/// A commit in the list.
pub open spec fn log_line(e: app::LogModel, selected: bool, width: int) -> Seq<SpanModel> {
    ui::single(
        ui::truncated(
            " "@ + e.short_sha + " "@ + e.date + " "@ + ui::padded_right(
                ui::truncated(e.author, 10),
                10,
            ) + " "@ + e.subject,
            width,
        ),
        if selected {
            theme::bar_style()
        } else {
            theme::editor_style()
        },
    )
}

/// The list of commits, shown so that the selected one is visible.
pub open spec fn history_pane(m: app::HistoryModel, width: int, height: nat) -> Seq<
    Seq<SpanModel>,
> {
    let top = ui::list_top(m.cursor, height as int, m.entries.len() as int);
    Seq::new(
        height,
        |i: int|
            if top + i < m.entries.len() {
                log_line(m.entries[top + i], top + i == m.cursor, width)
            } else {
                Seq::empty()
            },
    )
}

fn commit_line(e: &LogEntry, selected: bool, width: usize) -> (r: Vec<Span>)
    ensures
        order::views_of(r@) == log_line(e@, selected, width as int),
{
    let author = pad_right(&truncate_to(&e.author, 10), 10);
    let mut text = join2(" ", &e.short_sha);
    text.append(" ");
    text.append(&e.date);
    text.append(" ");
    text.append(&author);
    text.append(" ");
    text.append(&e.subject);
    let style = if selected {
        theme::tree_selected()
    } else {
        theme::tree()
    };
    line_with(truncate_to(&text, width), style)
}

/// The lines of the list of commits.
pub fn render_history_list(v: &HistoryView, width: u16, height: u16) -> (r: Vec<Vec<Span>>)
    ensures
        ui::lines_view(r@) == history_pane(v@, width as int, height as nat),
{
    let ghost m = v@;
    let ghost all = history_pane(m, width as int, height as nat);
    let top: usize = scroll_top(v.cursor, height as usize, v.entries.len());
    let mut lines: Vec<Vec<Span>> = Vec::new();
    let mut i: usize = 0;
    assert(ui::lines_view(lines@) =~= all.take(0));
    while i < height as usize
        invariant
            i <= height,
            m == v@,
            top == ui::list_top(m.cursor, height as int, m.entries.len() as int),
            all == history_pane(m, width as int, height as nat),
            ui::lines_view(lines@) == all.take(i as int),
        decreases height - i,
    {
        let line = match row_at(top, i, v.entries.len()) {
            Some(k) => {
                assert(m.entries[k as int] == v.entries@[k as int]@);
                commit_line(&v.entries[k], k == v.cursor, width as usize)
            },
            None => empty_line(),
        };
        assert(order::views_of(line@) == all[i as int]);
        add_line(&mut lines, line);
        i += 1;
        assert(all.take(i as int) =~= all.take(i - 1).push(all[i - 1]));
    }
    assert(all.take(i as int) =~= all);
    lines
}

/// The style of a line that tells of a commit: the head of it is muted.
pub open spec fn show_style(line: Seq<char>) -> Style {
    if scan::starts_with(line, "commit "@) || scan::starts_with(line, "Author:"@)
        || scan::starts_with(line, "Date:"@) || scan::starts_with(line, "Merge:"@) {
        theme::hint_style()
    } else {
        diff_style(line)
    }
}

fn show_line_style(line: &str) -> (r: Style)
    ensures
        r == show_style(line@),
{
    if text_starts_with(line, "commit ") || text_starts_with(line, "Author:") || text_starts_with(
        line,
        "Date:",
    ) || text_starts_with(line, "Merge:") {
        theme::status_hint()
    } else {
        diff_line_style(line)
    }
}

/// The lines of what the selected commit changed.
pub fn render_history_show(v: &HistoryView, width: u16, height: u16) -> (r: Vec<Vec<Span>>)
    ensures
        ui::lines_view(r@) == painted(
            v@.lines,
            v@.scroll,
            width as int,
            height as nat,
            |s: Seq<char>| show_style(s),
        ),
{
    let ghost f = |s: Seq<char>| show_style(s);
    let ghost all = painted(v@.lines, v@.scroll, width as int, height as nat, f);
    let mut lines: Vec<Vec<Span>> = Vec::new();
    let mut i: usize = 0;
    assert(ui::lines_view(lines@) =~= all.take(0));
    while i < height as usize
        invariant
            i <= height,
            f == (|s: Seq<char>| show_style(s)),
            all == painted(v@.lines, v@.scroll, width as int, height as nat, f),
            ui::lines_view(lines@) == all.take(i as int),
        decreases height - i,
    {
        let line = match row_at(v.commit_scroll, i, v.commit_lines.len()) {
            Some(k) => {
                assert(v@.lines[k as int] == v.commit_lines@[k as int]@);
                line_with(
                    truncate_to(&v.commit_lines[k], width as usize),
                    show_line_style(&v.commit_lines[k]),
                )
            },
            None => empty_line(),
        };
        assert(order::views_of(line@) == all[i as int]);
        add_line(&mut lines, line);
        i += 1;
        assert(all.take(i as int) =~= all.take(i - 1).push(all[i - 1]));
    }
    assert(all.take(i as int) =~= all);
    lines
}

// -------------------------------------------------------------------- open file

/// A matching file.
pub open spec fn match_line(path: Seq<char>, selected: bool, width: int) -> Seq<SpanModel> {
    ui::single(
        ui::truncated(
            if selected {
                "▸ "@ + path
            } else {
                "  "@ + path
            },
            width,
        ),
        if selected {
            theme::bar_style()
        } else {
            theme::editor_style()
        },
    )
}

/// What is said where no file matches.
pub open spec fn no_match(query: Seq<char>) -> Seq<char> {
    if query.len() == 0 {
        "No files"@
    } else {
        "No matches for \""@ + query + "\""@
    }
}

/// The files that match, shown so that the selected one is visible.
pub open spec fn matches_pane(m: app::OpenFileModel, width: int, height: nat) -> Seq<
    Seq<SpanModel>,
> {
    if m.matches.len() == 0 {
        seq![ui::single(ui::truncated(" "@ + no_match(m.query), width), theme::hint_style())]
    } else {
        let top = ui::list_top(m.cursor, height as int, m.matches.len() as int);
        Seq::new(
            height,
            |i: int|
                if top + i < m.matches.len() && m.matches[top + i] < m.files.len() {
                    match_line(m.files[m.matches[top + i]], top + i == m.cursor, width)
                } else {
                    Seq::empty()
                },
        )
    }
}

/// The lines of the files that match.
pub fn render_open_file(v: &OpenFileView, width: u16, height: u16) -> (r: Vec<Vec<Span>>)
    ensures
        ui::lines_view(r@) == matches_pane(v@, width as int, height as nat),
{
    let ghost m = v@;
    let ghost all = matches_pane(m, width as int, height as nat);
    let mut lines: Vec<Vec<Span>> = Vec::new();
    assert(ui::lines_view(lines@) =~= Seq::empty());
    if v.matches.len() == 0 {
        let said = if v.query.as_str().is_empty() {
            owned("No files")
        } else {
            join3("No matches for \"", &v.query, "\"")
        };
        let text = join2(" ", &said);
        add_line(&mut lines, line_with(truncate_to(&text, width as usize), theme::status_hint()));
        assert(ui::lines_view(lines@) =~= all);
        return lines;
    }
    let top: usize = scroll_top(v.cursor, height as usize, v.matches.len());
    let mut i: usize = 0;
    assert(ui::lines_view(lines@) =~= all.take(0));
    while i < height as usize
        invariant
            i <= height,
            m == v@,
            m.matches.len() > 0,
            top == ui::list_top(m.cursor, height as int, m.matches.len() as int),
            all == matches_pane(m, width as int, height as nat),
            ui::lines_view(lines@) == all.take(i as int),
        decreases height - i,
    {
        let line = match row_at(top, i, v.matches.len()) {
            Some(k) => {
                let f: usize = v.matches[k];
                assert(m.matches[k as int] == f);
                if f < v.files.len() {
                    assert(m.files[f as int] == v.files@[f as int]@);
                    let selected = k == v.cursor;
                    let (marker, style): (&str, Style) = if selected {
                        ("▸ ", theme::tree_selected())
                    } else {
                        ("  ", theme::editor())
                    };
                    let text = join2(marker, &v.files[f]);
                    line_with(truncate_to(&text, width as usize), style)
                } else {
                    empty_line()
                }
            },
            None => empty_line(),
        };
        assert(order::views_of(line@) == all[i as int]);
        add_line(&mut lines, line);
        i += 1;
        assert(all.take(i as int) =~= all.take(i - 1).push(all[i - 1]));
    }
    assert(all.take(i as int) =~= all);
    lines
}

} // verus!
