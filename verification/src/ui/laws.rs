//! What is drawn, seen from what it is drawn of.

use vstd::prelude::*;

use crate::app;
use crate::app::GitGroup;
use crate::git::LineStatus;
use crate::lsp;
use crate::paths;
use crate::rope;
use crate::scan;
use crate::theme;
use crate::tree;
use crate::ui;
use crate::ui::lists;
use crate::ui::lists::ChangeRow;
use crate::ui::status;
use crate::ui::{Pane, SpanModel};

verus! {

/// As much of a text as a width has room for: its start.
pub open spec fn start_of(shown: Seq<char>, s: Seq<char>, width: int) -> bool {
    &&& shown.len() <= s.len()
    &&& shown == s.take(shown.len() as int)
    &&& s.len() <= width ==> shown.len() == s.len()
    &&& s.len() > width ==> shown.len() == width
}

/// A text that is cut to a width is as much of its start as there is room for. One that is
/// padded has the width, the text at one end, and blanks at the other.
pub proof fn law_fitting_a_width(s: Seq<char>, width: int)
    requires
        0 <= width,
    ensures
        start_of(ui::truncated(s, width), s, width),
        ({
            let (l, r) = (ui::padded_left(s, width), ui::padded_right(s, width));
            &&& s.len() <= width ==> l.len() == width && r.len() == width
            &&& s.len() > width ==> l.len() == s.len() && r.len() == s.len()
            &&& l.skip(l.len() - s.len()) == s
            &&& r.take(s.len() as int) == s
            &&& forall|i: int| 0 <= i < l.len() - s.len() ==> #[trigger] l[i] == ' '
            &&& forall|i: int| s.len() <= i < r.len() ==> #[trigger] r[i] == ' '
        }),
{
    assert(s.take(s.len() as int) =~= s);
    let (l, r) = (ui::padded_left(s, width), ui::padded_right(s, width));
    assert(l.skip(l.len() - s.len()) =~= s);
    assert(r.take(s.len() as int) =~= s);
}

// ---------------------------------------------------------------------- gutter

/// The gutter of a line: its number, counted from one, to the right of its column, a blank,
/// and a mark for the last change that is known of the line.
pub proof fn law_gutter_rows(m: app::AppModel, line: int, columns: int)
    requires
        0 <= line < rope::line_count(m.buffer.text),
        columns >= scan::decimal((line + 1) as nat).len() + 2,
    ensures
        ({
            let row = ui::gutter_row(m, line, columns);
            let number = scan::decimal((line + 1) as nat);
            &&& row.len() == 3
            &&& row[0].text.len() == columns - 2
            &&& row[0].text.skip(row[0].text.len() - number.len()) == number
            &&& forall|i: int|
                0 <= i < row[0].text.len() - number.len() ==> #[trigger] row[0].text[i] == ' '
            &&& row[1].text == " "@
            &&& row[2].text == (match app::session::status_of_line(
                m.git_status,
                line as nat,
                m.git_status.len() as int,
            ) {
                Some(LineStatus::Added) => "+"@,
                Some(LineStatus::Modified) => "~"@,
                Some(LineStatus::DeletedAbove) => "\u{203E}"@,
                None => " "@,
            })
        }),
        ui::gutter_row(m, rope::line_count(m.buffer.text) as int, columns).len() == 0,
{
    let number = scan::decimal((line + 1) as nat);
    law_fitting_a_width(number, columns - 2);
}

/// The gutter has room for the number of the last line.
pub proof fn law_gutters_have_room(n: nat)
    requires
        n > 0,
    ensures
        ui::gutter_columns(n) == scan::decimal(n).len() + 2,
{
}

// ------------------------------------------------------------------------ text

/// All that a drawn line says.
pub open spec fn said_by(line: Seq<SpanModel>) -> Seq<char>
    decreases line.len(),
{
    if line.len() == 0 {
        Seq::empty()
    } else {
        said_by(line.drop_last()) + line.last().text
    }
}

proof fn lemma_said(line: Seq<SpanModel>)
    ensures
        said_by(line) == ui::text_of(line),
    decreases line.len(),
{
    if line.len() > 0 {
        lemma_said(line.drop_last());
        lemma_text_push(line.drop_last(), line.last());
        assert(line.drop_last().push(line.last()) =~= line);
    }
}

proof fn lemma_text_push(line: Seq<SpanModel>, s: SpanModel)
    ensures
        ui::text_of(line.push(s)) == ui::text_of(line) + s.text,
    decreases line.len(),
{
    if line.len() == 0 {
        assert(line.push(s).skip(1) =~= Seq::<SpanModel>::empty());
        assert(ui::text_of(Seq::<SpanModel>::empty()) =~= Seq::<char>::empty());
        assert(ui::text_of(line.push(s)) =~= s.text);
        assert(ui::text_of(line) + s.text =~= s.text);
    } else {
        assert(line.push(s).skip(1) =~= line.skip(1).push(s));
        lemma_text_push(line.skip(1), s);
        assert(line[0].text + (ui::text_of(line.skip(1)) + s.text) =~= line[0].text + ui::text_of(
            line.skip(1),
        ) + s.text);
    }
}

/// A line of the text is drawn as it is: all of its characters up to its line break, or as
/// many from the start as there is room for. Where the text ends nothing is drawn.
pub proof fn law_text_rows(m: app::AppModel, line: int, width: int)
    requires
        0 <= line < rope::line_count(m.buffer.text),
        0 <= width,
    ensures
        ({
            let s = m.buffer.text;
            let (a, z) = (rope::line_start(s, line), rope::line_start(s, line + 1));
            let end = if a < z && s[z - 1] == '\n' {
                if a < z - 1 && s[z - 2] == '\r' {
                    z - 2
                } else {
                    z - 1
                }
            } else {
                z
            };
            start_of(said_by(ui::text_row(m, line, width)), s.subrange(a, end), width)
        }),
        ui::text_row(m, rope::line_count(m.buffer.text) as int, width).len() == 0,
{
    let s = m.buffer.text;
    let (a, z) = (rope::line_start(s, line), rope::line_start(s, line + 1));
    rope::lemma_line_start(s, line);
    rope::lemma_line_start(s, line + 1);
    rope::lemma_line_start_monotone(s, line, line + 1);
    let whole = rope::line_text(s, line);
    let bare = ui::without_break(whole);
    let end = if a < z && s[z - 1] == '\n' {
        if a < z - 1 && s[z - 2] == '\r' {
            z - 2
        } else {
            z - 1
        }
    } else {
        z
    };
    if a < z {
        assert(whole.last() == s[z - 1]);
        if a < z - 1 {
            assert(whole.drop_last().last() == s[z - 2]);
        }
    }
    assert(bare =~= s.subrange(a, end));
    law_fitting_a_width(bare, width);
    let cut = ui::truncated(bare, width);
    let spans = match m.syntax {
        Some(x) => if line < x.spans.len() {
            x.spans[line]
        } else {
            Seq::empty()
        },
        None => Seq::empty(),
    };
    ui::law_painting_keeps_text(cut, spans, 0, 0);
    lemma_said(ui::text_row(m, line, width));
    assert(cut.subrange(0, cut.len() as int) =~= cut);
}

/// The cursor is drawn in the text alone, as many rows below the first line on the screen as
/// its line is, and in its column, where that is on the screen.
pub proof fn law_cursor_cells(m: app::AppModel, width: u16, height: u16)
    requires
        0 <= m.view.top <= m.view.line,
        m.view.line - m.view.top <= u16::MAX,
        0 <= m.view.col <= u16::MAX,
    ensures
        ({
            let drawn = !m.keys_help && m.open_file is None && m.history is None && m.diff is None
                && !m.tree.focused && m.view.line - m.view.top < height && m.view.col < width;
            let cell = ui::cursor_cell(m, width, height);
            &&& drawn <==> cell is Some
            &&& cell matches Some((col, row)) ==> col == m.view.col && row == m.view.line
                - m.view.top
        }),
{
}

// ------------------------------------------------------------------------ tree

/// A row of the tree: indented by its depth, with a sign for what it is, and its name.
pub proof fn law_tree_rows(t: tree::TreeModel, i: int, width: int)
    requires
        0 <= i < t.rows.len(),
        0 <= width,
        t.rows[i].depth >= 0,
    ensures
        ({
            let r = lists::tree_row(t, i, width);
            let row = t.rows[i];
            let sign = if row.is_parent_link {
                "↰ "@
            } else if row.is_dir && row.expanded {
                "▾ "@
            } else if row.is_dir {
                "▸ "@
            } else {
                "  "@
            };
            let indent = lists::indent(row.depth);
            &&& r.len() == 1
            &&& start_of(r[0].text, indent + sign + row.name, width)
            &&& indent.len() == 2 * row.depth
            &&& forall|k: int| 0 <= k < indent.len() ==> #[trigger] indent[k] == ' '
            &&& i == t.cursor ==> r[0].style == theme::bar_style()
            &&& i != t.cursor ==> r[0].style != theme::bar_style()
        }),
        lists::tree_row(t, t.rows.len() as int, width).len() == 0,
{
    let row = t.rows[i];
    lemma_indent(row.depth);
    law_fitting_a_width(lists::indent(row.depth) + lists::icon(row) + row.name, width);
}

proof fn lemma_indent(depth: int)
    requires
        0 <= depth,
    ensures
        lists::indent(depth).len() == 2 * depth,
        forall|k: int|
            0 <= k < lists::indent(depth).len() ==> #[trigger] lists::indent(depth)[k] == ' ',
    decreases depth,
{
    reveal_strlit("  ");
    if depth > 0 {
        lemma_indent(depth - 1);
    }
}

// --------------------------------------------------------------- changed files

/// The rows of the changed files: each file once, in their order, and before the first of a
/// section the header of the section.
pub proof fn law_rows_of_changed_files(files: Seq<app::GitFileModel>, n: int)
    requires
        0 < n <= files.len(),
        files.len() <= usize::MAX,
    ensures
        ({
            let before = lists::change_rows(files, n - 1);
            let after = lists::change_rows(files, n);
            let starts = n == 1 || files[n - 1].group != files[n - 2].group;
            &&& starts ==> after == before + seq![
                ChangeRow::Header(files[n - 1].group),
                ChangeRow::File((n - 1) as usize),
            ]
            &&& !starts ==> after == before + seq![ChangeRow::File((n - 1) as usize)]
        }),
        lists::change_rows(files, 0).len() == 0,
{
    let before = lists::change_rows(files, n - 1);
    let after = lists::change_rows(files, n);
    if n == 1 || files[n - 1].group != files[n - 2].group {
        assert(after =~= before + seq![
            ChangeRow::Header(files[n - 1].group),
            ChangeRow::File((n - 1) as usize),
        ]);
    } else {
        assert(after =~= before + seq![ChangeRow::File((n - 1) as usize)]);
    }
}

/// A changed file is drawn with its two states and its path, and the one under the cursor
/// stands out.
pub proof fn law_lines_of_changed_files(m: app::GitModel, k: usize, g: GitGroup, width: int)
    requires
        k < m.files.len(),
        0 <= width,
    ensures
        ({
            let f = m.files[k as int];
            let line = lists::change_line(m, ChangeRow::File(k), width);
            let head = lists::change_line(m, ChangeRow::Header(g), width);
            &&& line.len() == 1 && head.len() == 1
            &&& start_of(
                line[0].text,
                " "@ + seq![f.staged, f.unstaged] + " "@ + f.path,
                width,
            )
            &&& k == m.cursor ==> line[0].style == theme::bar_style()
            &&& k != m.cursor ==> line[0].style != theme::bar_style()
            &&& start_of(
                head[0].text,
                " "@ + (match g {
                    GitGroup::Staged => "Staged"@,
                    GitGroup::Both => "Staged + Modified"@,
                    GitGroup::Modified => "Modified"@,
                    GitGroup::Untracked => "Untracked"@,
                }) + " "@,
                width,
            )
        }),
{
    let f = m.files[k as int];
    law_fitting_a_width(" "@ + seq![f.staged, f.unstaged] + " "@ + f.path, width);
    law_fitting_a_width(" "@ + lists::group_header(g) + " "@, width);
}

/// Lines that are scrolled are drawn from the first one that is to be seen on, each cut to the
/// width.
pub proof fn law_scrolled_lines(lines: Seq<Seq<char>>, top: int, width: int, height: nat, i: int)
    requires
        0 <= top,
        0 <= width,
        0 <= i < height,
    ensures
        ({
            let r = lists::painted(lines, top, width, height, |l: Seq<char>| lists::diff_style(l));
            &&& r.len() == height
            &&& top + i < lines.len() ==> r[i].len() == 1 && start_of(
                r[i][0].text,
                lines[top + i],
                width,
            )
            &&& top + i >= lines.len() ==> r[i].len() == 0
        }),
{
    if top + i < lines.len() {
        law_fitting_a_width(lines[top + i], width);
    }
}

/// A commit is drawn with its short name, its date, ten columns for its author, and its
/// subject.
pub proof fn law_lines_of_commits(e: app::LogModel, width: int)
    requires
        0 <= width,
        e.author.len() <= 10,
    ensures
        ({
            let (on, off) = (lists::log_line(e, true, width), lists::log_line(e, false, width));
            let author = e.author + Seq::new((10 - e.author.len()) as nat, |i: int| ' ');
            let all = " "@ + e.short_sha + " "@ + e.date + " "@ + author + " "@ + e.subject;
            &&& on.len() == 1 && off.len() == 1
            &&& start_of(on[0].text, all, width)
            &&& off[0].text == on[0].text
            &&& on[0].style == theme::bar_style() && off[0].style != theme::bar_style()
        }),
{
    let author = e.author + Seq::new((10 - e.author.len()) as nat, |i: int| ' ');
    assert(ui::truncated(e.author, 10) =~= e.author);
    assert(ui::padded_right(e.author, 10) =~= author);
    law_fitting_a_width(
        " "@ + e.short_sha + " "@ + e.date + " "@ + author + " "@ + e.subject,
        width,
    );
}

/// The row under the cursor of a list is drawn as the selected one, wherever the list is
/// scrolled to.
pub proof fn law_selected_commits_are_drawn(m: app::HistoryModel, width: int, height: nat)
    requires
        0 < height,
        0 <= m.cursor < m.entries.len(),
    ensures
        exists|i: int|
            0 <= i < height && #[trigger] lists::history_pane(m, width, height)[i]
                == lists::log_line(m.entries[m.cursor], true, width),
{
    let top = ui::list_top(m.cursor, height as int, m.entries.len() as int);
    let i = m.cursor - top;
    assert(0 <= i < height);
    assert(lists::history_pane(m, width, height)[i] == lists::log_line(
        m.entries[m.cursor],
        true,
        width,
    ));
}

/// The file under the cursor of the dialog is drawn as the selected one.
pub proof fn law_selected_matches_are_drawn(m: app::OpenFileModel, width: int, height: nat)
    requires
        0 < height,
        0 <= width,
        0 <= m.cursor < m.matches.len(),
        0 <= m.matches[m.cursor] < m.files.len(),
    ensures
        exists|i: int|
            {
                let line = #[trigger] lists::matches_pane(m, width, height)[i];
                &&& 0 <= i < height
                &&& line.len() == 1
                &&& start_of(line[0].text, "▸ "@ + m.files[m.matches[m.cursor]], width)
                &&& line[0].style == theme::bar_style()
            },
{
    let top = ui::list_top(m.cursor, height as int, m.matches.len() as int);
    let i = m.cursor - top;
    assert(0 <= i < height);
    law_fitting_a_width("▸ "@ + m.files[m.matches[m.cursor]], width);
    let line = lists::matches_pane(m, width, height)[i];
    assert(line == lists::match_line(m.files[m.matches[m.cursor]], true, width));
}

// ------------------------------------------------------------------ status bar

proof fn lemma_columns(line: Seq<SpanModel>)
    ensures
        status::columns_of(line) == said_by(line).len(),
    decreases line.len(),
{
    if line.len() > 0 {
        lemma_columns(line.drop_last());
    }
}

/// The status bar is at least as wide as the screen. It says what is typed in a prompt or as
/// the name of a file; otherwise the path, the place of the cursor, counted from one, and
/// whether anything is unsaved, and at the right the status, if there is one.
pub proof fn law_status_bar(
    m: app::AppModel,
    indexing: bool,
    ds: Seq<lsp::DiagnosticModel>,
    width: int,
)
    requires
        m.view.line >= 0,
        m.view.col >= 0,
    ensures
        ({
            let bar = status::bar_line(m, indexing, ds, width);
            &&& said_by(bar).len() >= width
            &&& m.prompt matches Some(p) ==> bar[0].text == " "@ + p.label + " "@ + p.text + "_"@
            &&& m.prompt is None ==> (m.open_file matches Some(v) ==> bar[0].text == " Open file: "@
                + v.query + "_"@ && bar.last().text == " "@ + scan::decimal(v.matches.len())
                + " match(es) "@)
            &&& m.prompt is None && m.open_file is None ==> {
                let path = match m.buffer.path {
                    Some(p) => p,
                    None => "[scratch]"@,
                };
                &&& bar[0].text == " "@ + path + "  L"@ + scan::decimal((m.view.line + 1) as nat)
                    + ":C"@ + scan::decimal((m.view.col + 1) as nat) + "  "@ + (if m.buffer.dirty {
                    "+"@
                } else {
                    "·"@
                }) + " "@
                &&& m.status.len() > 0 ==> bar.last().text == " "@ + m.status + " "@
            }
        }),
{
    let bar = status::bar_line(m, indexing, ds, width);
    if m.prompt is Some {
        lemma_said_two(bar);
    } else if m.open_file is Some {
        let v = m.open_file->Some_0;
        let left = " Open file: "@ + v.query + "_"@;
        let right = crate::error::with_number(" "@, v.matches.len() as int, " match(es) "@);
        assert(right =~= " "@ + scan::decimal(v.matches.len()) + " match(es) "@);
        assert(bar.len() == 3);
        assert(bar.last() == bar[2]);
        lemma_said_two(bar.drop_last());
        assert(bar.drop_last()[0] == bar[0] && bar.drop_last()[1] == bar[1]);
        assert(said_by(bar).len() >= width);
    } else {
        let head = seq![
            SpanModel { text: status::left_text(m), style: theme::bar_style() },
        ] + status::badges(m, indexing);
        let right = status::right_span(m, ds);
        let used = status::gap(width, status::columns_of(head) + right.text.len());
        lemma_columns(head);
        assert(bar.drop_last() =~= head.push(used));
        assert(head.push(used).drop_last() =~= head);
        assert(bar.last() == right);
        assert(head.push(used).last() == used);
        assert(said_by(head.push(used)) == said_by(head) + used.text);
        assert(said_by(bar) == said_by(bar.drop_last()) + bar.last().text);
        assert(bar[0] == head[0]);
        let path = match m.buffer.path {
            Some(p) => p,
            None => "[scratch]"@,
        };
        assert(status::left_text(m) =~= " "@ + path + "  L"@ + scan::decimal(
            (m.view.line + 1) as nat,
        ) + ":C"@ + scan::decimal((m.view.col + 1) as nat) + "  "@ + (if m.buffer.dirty {
            "+"@
        } else {
            "·"@
        }) + " "@);
    }
}

proof fn lemma_said_two(line: Seq<SpanModel>)
    requires
        line.len() == 2,
    ensures
        said_by(line) == line[0].text + line[1].text,
{
    reveal_with_fuel(said_by, 3);
    let one = line.drop_last();
    assert(one.drop_last() =~= Seq::<SpanModel>::empty());
    assert(said_by(one) =~= line[0].text);
}

/// Where nothing else is said, the status bar shows the first problem that starts on the line
/// of the cursor, with how severe it is.
pub proof fn law_problems_are_shown(
    m: app::AppModel,
    ds: Seq<lsp::DiagnosticModel>,
    k: int,
)
    requires
        m.status.len() == 0,
        m.language is Some,
        m.servers.contains(m.language->Some_0),
        m.uri is Some,
        0 <= m.view.line <= u32::MAX,
        0 <= k < ds.len(),
        ds[k].range.start.line == m.view.line,
        forall|j: int| 0 <= j < k ==> (#[trigger] ds[j]).range.start.line != m.view.line,
    ensures
        status::right_span(m, ds).text == " "@ + (if ds[k].severity == Some(1u8) {
            "error"@
        } else if ds[k].severity == Some(2u8) {
            "warn"@
        } else if ds[k].severity == Some(3u8) {
            "info"@
        } else {
            "hint"@
        }) + ": "@ + status::on_one_line(ds[k].message) + " "@,
{
    lemma_starting(ds, m.view.line as u32, 0, k);
}

proof fn lemma_starting(ds: Seq<lsp::DiagnosticModel>, line: u32, i: int, k: int)
    requires
        0 <= i <= k < ds.len(),
        ds[k].range.start.line == line,
        forall|j: int| i <= j < k ==> (#[trigger] ds[j]).range.start.line != line,
    ensures
        status::starting_on(ds, line, i) == Some(ds[k]),
    decreases k - i,
{
    if i < k {
        lemma_starting(ds, line, i + 1, k);
    }
}

} // verus!
