//! What stands in the lists beside and over the text.

use vstd::prelude::*;

use crate::app;
use crate::paths;
use crate::theme;
use crate::tree;
use crate::ui;
use crate::ui::help;
use crate::ui::help::KeyRow;
use crate::ui::laws::start_of;
use crate::ui::lists;
use crate::ui::lists::ChangeRow;
use crate::ui::SpanModel;

verus! {

/// The tree is drawn under the name of its root, from the row that is the first one shown,
/// row by row.
pub proof fn law_tree_is_drawn(t: tree::TreeModel, name: Seq<char>, width: int, rows: nat, i: int)
    requires
        0 <= width,
        paths::file_name(t.root) == Some(name),
        0 <= i < rows,
    ensures
        ({
            let pane = lists::tree_pane(t, width, rows);
            &&& pane.len() == rows + 1
            &&& pane[0].len() == 1
            &&& start_of(pane[0][0].text, " "@ + name + " "@, width)
            &&& pane[0][0].style == theme::bar_style()
            &&& pane[i + 1] == lists::tree_row(t, t.top + i, width)
        }),
{
    ui::laws::law_fitting_a_width(" "@ + name + " "@, width);
}

proof fn lemma_row_of_file(rows: Seq<ChangeRow>, file: usize, i: int, r: int)
    requires
        0 <= i <= r < rows.len(),
        rows[r] == ChangeRow::File(file),
    ensures
        i <= lists::row_of_file(rows, file as int, i) <= r,
        rows[lists::row_of_file(rows, file as int, i)] == ChangeRow::File(file),
    decreases r - i,
{
    if rows[i] != ChangeRow::File(file) {
        lemma_row_of_file(rows, file, i + 1, r);
    }
}

/// The changed file under the cursor is always among the rows that are drawn.
pub proof fn law_selected_changes_are_drawn(m: app::GitModel, r: int, width: int, height: nat)
    requires
        0 < height,
        0 <= m.cursor <= usize::MAX,
        ({
            let rows = lists::change_rows(m.files, m.files.len() as int);
            0 <= r < rows.len() && rows[r] == ChangeRow::File(m.cursor as usize)
        }),
    ensures
        lists::changes_pane(m, width, height).len() == height,
        exists|i: int|
            0 <= i < height && #[trigger] lists::changes_pane(m, width, height)[i]
                == lists::change_line(m, ChangeRow::File(m.cursor as usize), width),
{
    let rows = lists::change_rows(m.files, m.files.len() as int);
    lemma_row_of_file(rows, m.cursor as usize, 0, r);
    let at = lists::row_of_file(rows, m.cursor, 0);
    let top = ui::list_top(at, height as int, rows.len() as int);
    let i = at - top;
    assert(0 <= i < height);
    assert(lists::changes_pane(m, width, height)[i] == lists::change_line(
        m,
        ChangeRow::File(m.cursor as usize),
        width,
    ));
}

/// Rows are drawn one behind the other without a gap.
pub proof fn law_changes_are_drawn_in_order(m: app::GitModel, width: int, height: nat, i: int)
    requires
        0 <= i,
        i + 1 < height,
    ensures
        ({
            let rows = lists::change_rows(m.files, m.files.len() as int);
            let pane = lists::changes_pane(m, width, height);
            forall|r: int|
                0 <= r && r + 1 < rows.len() && ui::list_top(
                    lists::row_of_file(rows, m.cursor, 0),
                    height as int,
                    rows.len() as int,
                ) + i == r ==> pane[i] == #[trigger] lists::change_line(m, rows[r], width)
                    && pane[i + 1] == lists::change_line(m, rows[r + 1], width)
        }),
{
}

/// A line of a diff starts as it does, and is drawn accordingly: hunks in cyan, the names of
/// the files in violet, what was added in green, what was removed in red, and all else like
/// text.
pub proof fn law_lines_of_a_diff(line: Seq<char>)
    ensures
        ({
            let style = lists::diff_style(line);
            let two = line.len() >= 2;
            let three = line.len() >= 3;
            let hunk = two && line[0] == '@' && line[1] == '@';
            let names = three && ((line[0] == '+' && line[1] == '+' && line[2] == '+') || (line[0]
                == '-' && line[1] == '-' && line[2] == '-'));
            &&& hunk ==> style.fg == Some(theme::Color::SolarCyan)
            &&& names ==> style.fg == Some(theme::Color::SolarViolet)
            &&& !names && line.len() > 0 && line[0] == '+' ==> style.fg == Some(
                theme::Color::SolarGreen,
            )
            &&& !names && line.len() > 0 && line[0] == '-' ==> style.fg == Some(
                theme::Color::SolarRed,
            )
            &&& line.len() == 0 || (line[0] != '@' && line[0] != '+' && line[0] != '-') ==> style
                == theme::editor_style()
        }),
{
    lemma_starts(line);
}

proof fn lemma_starts(line: Seq<char>)
    ensures
        crate::scan::starts_with(line, "@@"@) <==> line.len() >= 2 && line[0] == '@' && line[1]
            == '@',
        crate::scan::starts_with(line, "+++"@) <==> line.len() >= 3 && line[0] == '+' && line[1]
            == '+' && line[2] == '+',
        crate::scan::starts_with(line, "---"@) <==> line.len() >= 3 && line[0] == '-' && line[1]
            == '-' && line[2] == '-',
        crate::scan::starts_with(line, "+"@) <==> line.len() >= 1 && line[0] == '+',
        crate::scan::starts_with(line, "-"@) <==> line.len() >= 1 && line[0] == '-',
{
    reveal_strlit("@@");
    reveal_strlit("+++");
    reveal_strlit("---");
    reveal_strlit("+");
    reveal_strlit("-");
    if line.len() >= 1 {
        let t = line.subrange(0, 1);
        assert(t[0] == line[0]);
        assert(line[0] == '+' ==> t =~= "+"@);
        assert(line[0] == '-' ==> t =~= "-"@);
    }
    if line.len() >= 2 {
        let t = line.subrange(0, 2);
        assert(t[0] == line[0] && t[1] == line[1]);
        assert(line[0] == '@' && line[1] == '@' ==> t =~= "@@"@);
    }
    if line.len() >= 3 {
        let t = line.subrange(0, 3);
        assert(t[0] == line[0] && t[1] == line[1] && t[2] == line[2]);
        assert(line[0] == '+' && line[1] == '+' && line[2] == '+' ==> t =~= "+++"@);
        assert(line[0] == '-' && line[1] == '-' && line[2] == '-' ==> t =~= "---"@);
    }
}

/// What a commit says of itself is drawn like a hint, and its diff like any other.
pub proof fn law_lines_of_a_shown_commit(rest: Seq<char>, line: Seq<char>)
    requires
        line.len() > 0 ==> line[0] != 'c' && line[0] != 'A' && line[0] != 'D' && line[0] != 'M',
    ensures
        lists::show_style("commit "@ + rest) == theme::hint_style(),
        lists::show_style("Author:"@ + rest) == theme::hint_style(),
        lists::show_style("Date:"@ + rest) == theme::hint_style(),
        lists::show_style("Merge:"@ + rest) == theme::hint_style(),
        lists::show_style(line) == lists::diff_style(line),
{
    reveal_strlit("commit ");
    reveal_strlit("Author:");
    reveal_strlit("Date:");
    reveal_strlit("Merge:");
    lemma_headed("commit "@, rest, line);
    lemma_headed("Author:"@, rest, line);
    lemma_headed("Date:"@, rest, line);
    lemma_headed("Merge:"@, rest, line);
}

proof fn lemma_headed(head: Seq<char>, rest: Seq<char>, line: Seq<char>)
    requires
        head.len() > 0,
    ensures
        crate::scan::starts_with(head + rest, head),
        crate::scan::starts_with(line, head) ==> line.len() > 0 && line[0] == head[0],
{
    assert((head + rest).subrange(0, head.len() as int) =~= head);
    if crate::scan::starts_with(line, head) {
        assert(line.subrange(0, head.len() as int)[0] == line[0]);
    }
}

/// A list beside a pane is as wide as it wants to be, but leaves the pane twenty columns.
pub proof fn law_columns_of_lists(wanted: u16, width: u16)
    ensures
        lists::list_columns(wanted, width) <= wanted,
        width >= 20 ==> lists::list_columns(wanted, width) + 20 <= width || lists::list_columns(
            wanted,
            width,
        ) == 0,
        wanted + 20 <= width ==> lists::list_columns(wanted, width) == wanted,
        wanted + 20 > width && width >= 20 ==> lists::list_columns(wanted, width) == width - 20,
        width < 20 ==> lists::list_columns(wanted, width) == 0,
{
}

/// The keymap is drawn row by row: a section behind an empty line, a binding with its keys
/// before what they do. A pane that is full gets no further row, and one that is not is
/// filled with empty lines.
pub proof fn law_keymap_is_drawn(
    rows: Seq<KeyRow>,
    n: int,
    width: int,
    height: int,
    keys: &'static str,
    what: &'static str,
)
    requires
        1 < n <= rows.len(),
        0 <= width,
    ensures
        ({
            let before = help::lines_upto(rows, n - 1, width, height);
            let after = help::lines_upto(rows, n, width, height);
            &&& before.len() >= height ==> after == before
            &&& before.len() < height && rows[n - 1] == KeyRow::Section(what) ==> {
                &&& after.len() == before.len() + 2
                &&& after.take(before.len() as int) == before
                &&& after[before.len() as int].len() == 0
                &&& after[before.len() as int + 1].len() == 1
                &&& start_of(after[before.len() as int + 1][0].text, " "@ + what@, width)
            }
            &&& before.len() < height && rows[n - 1] == KeyRow::Binding(keys, what) ==> {
                &&& after.len() == before.len() + 1
                &&& after.take(before.len() as int) == before
                &&& after[before.len() as int].len() == 1
                &&& start_of(
                    after[before.len() as int][0].text,
                    "  "@ + ui::padded_right(keys@, 22) + "  "@ + what@,
                    width,
                )
            }
        }),
{
    let before = help::lines_upto(rows, n - 1, width, height);
    let after = help::lines_upto(rows, n, width, height);
    ui::laws::law_fitting_a_width(" "@ + what@, width);
    ui::laws::law_fitting_a_width("  "@ + ui::padded_right(keys@, 22) + "  "@ + what@, width);
    if before.len() < height {
        assert(after.take(before.len() as int) =~= before);
    }
}

/// A pane that is not full is filled up with empty lines.
pub proof fn law_panes_are_filled(lines: Seq<Seq<SpanModel>>, height: int, i: int)
    ensures
        ({
            let f = help::filled(lines, height);
            &&& f.len() >= height && f.len() >= lines.len()
            &&& f.len() == height || f.len() == lines.len()
            &&& 0 <= i < lines.len() ==> f[i] == lines[i]
            &&& lines.len() <= i < f.len() ==> f[i].len() == 0
        }),
{
}

} // verus!
