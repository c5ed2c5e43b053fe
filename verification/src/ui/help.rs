//! The pane that lists the keys.

use vstd::prelude::*;

use super::{add_line, empty_line, line_with, pad_right, truncate_to, Span, SpanModel};
use crate::text::join2;
use crate::theme;
use crate::ui;

verus! {

/// A row of the list of keys.
#[derive(Clone, Copy, Debug)]
pub enum KeyRow {
    Section(&'static str),
    /// Keys, and what they do.
    Binding(&'static str, &'static str),
}

/// The rows of the list.
pub open spec fn key_rows() -> Seq<KeyRow> {
    seq![
        KeyRow::Section("Modals"),
        KeyRow::Binding("Ctrl-T", "toggle file tree sidebar"),
        KeyRow::Binding("Ctrl-R", "git status / stage / commit"),
        KeyRow::Binding("Ctrl-L", "commit history"),
        KeyRow::Binding("Ctrl-P", "show this keymap"),
        KeyRow::Binding("Esc", "close modal / clear status"),
        KeyRow::Section("File"),
        KeyRow::Binding("Ctrl-S", "save"),
        KeyRow::Binding("Ctrl-X", "open file (fuzzy)"),
        KeyRow::Binding("Ctrl-N", "new file (prompt)"),
        KeyRow::Binding("Ctrl-W", "toggle autosave (~500ms idle)"),
        KeyRow::Binding("Ctrl-Q", "quit (twice when dirty)"),
        KeyRow::Section("LSP"),
        KeyRow::Binding("Ctrl-G", "go to definition"),
        KeyRow::Binding("Ctrl-O", "back (nav stack)"),
        KeyRow::Binding("Ctrl-K", "show type at cursor"),
        KeyRow::Binding("Ctrl-Y", "rename symbol"),
        KeyRow::Section("Motion"),
        KeyRow::Binding("Arrows / Alt+hjkl", "move by char / line"),
        KeyRow::Binding("Ctrl-B / Ctrl-F", "word left / right (Alt+b/f also)"),
        KeyRow::Binding("Ctrl-A / Ctrl-E", "line start / end"),
        KeyRow::Binding("Ctrl-U / Ctrl-D", "page up / down"),
        KeyRow::Binding("Home / End", "line start / end"),
        KeyRow::Section("Tree (when focused)"),
        KeyRow::Binding("Up / Down", "move selection"),
        KeyRow::Binding("Enter", "open file / expand dir / ascend ↰ .."),
        KeyRow::Section("Git view"),
        KeyRow::Binding("Up / Down", "move between files (refreshes diff)"),
        KeyRow::Binding("s / u / c", "stage / unstage / commit"),
        KeyRow::Binding("Ctrl-U / Ctrl-D", "page the diff"),
        KeyRow::Section("History view"),
        KeyRow::Binding("Up / Down", "move between commits"),
        KeyRow::Binding("Ctrl-U / Ctrl-D", "page the commit show"),
    ]
}

/// The rows of the list.
pub fn keys_help() -> (r: Vec<KeyRow>)
    ensures
        r@ == key_rows(),
{
    let r = vec![
        KeyRow::Section("Modals"),
        KeyRow::Binding("Ctrl-T", "toggle file tree sidebar"),
        KeyRow::Binding("Ctrl-R", "git status / stage / commit"),
        KeyRow::Binding("Ctrl-L", "commit history"),
        KeyRow::Binding("Ctrl-P", "show this keymap"),
        KeyRow::Binding("Esc", "close modal / clear status"),
        KeyRow::Section("File"),
        KeyRow::Binding("Ctrl-S", "save"),
        KeyRow::Binding("Ctrl-X", "open file (fuzzy)"),
        KeyRow::Binding("Ctrl-N", "new file (prompt)"),
        KeyRow::Binding("Ctrl-W", "toggle autosave (~500ms idle)"),
        KeyRow::Binding("Ctrl-Q", "quit (twice when dirty)"),
        KeyRow::Section("LSP"),
        KeyRow::Binding("Ctrl-G", "go to definition"),
        KeyRow::Binding("Ctrl-O", "back (nav stack)"),
        KeyRow::Binding("Ctrl-K", "show type at cursor"),
        KeyRow::Binding("Ctrl-Y", "rename symbol"),
        KeyRow::Section("Motion"),
        KeyRow::Binding("Arrows / Alt+hjkl", "move by char / line"),
        KeyRow::Binding("Ctrl-B / Ctrl-F", "word left / right (Alt+b/f also)"),
        KeyRow::Binding("Ctrl-A / Ctrl-E", "line start / end"),
        KeyRow::Binding("Ctrl-U / Ctrl-D", "page up / down"),
        KeyRow::Binding("Home / End", "line start / end"),
        KeyRow::Section("Tree (when focused)"),
        KeyRow::Binding("Up / Down", "move selection"),
        KeyRow::Binding("Enter", "open file / expand dir / ascend ↰ .."),
        KeyRow::Section("Git view"),
        KeyRow::Binding("Up / Down", "move between files (refreshes diff)"),
        KeyRow::Binding("s / u / c", "stage / unstage / commit"),
        KeyRow::Binding("Ctrl-U / Ctrl-D", "page the diff"),
        KeyRow::Section("History view"),
        KeyRow::Binding("Up / Down", "move between commits"),
        KeyRow::Binding("Ctrl-U / Ctrl-D", "page the commit show"),
    ];
    assert(r@ =~= key_rows());
    r
}

/// The lines of a row: a section has an empty line above it.
pub open spec fn row_lines(row: KeyRow, width: int) -> Seq<Seq<SpanModel>> {
    match row {
        KeyRow::Section(label) => seq![
            Seq::empty(),
            ui::single(ui::truncated(" "@ + label@, width), theme::hint_style()),
        ],
        KeyRow::Binding(keys, desc) => seq![
            ui::single(
                ui::truncated("  "@ + ui::padded_right(keys@, 22) + "  "@ + desc@, width),
                theme::editor_style(),
            ),
        ],
    }
}

/// The lines of the first `n` rows; no row is begun once the pane is full.
pub open spec fn lines_upto(rows: Seq<KeyRow>, n: int, width: int, height: int) -> Seq<
    Seq<SpanModel>,
>
    decreases n,
{
    if n <= 0 {
        Seq::empty()
    } else {
        let before = lines_upto(rows, n - 1, width, height);
        if n > 1 && before.len() >= height {
            before
        } else {
            before + row_lines(rows[n - 1], width)
        }
    }
}

/// The lines, with empty ones to fill the pane.
pub open spec fn filled(lines: Seq<Seq<SpanModel>>, height: int) -> Seq<Seq<SpanModel>> {
    if lines.len() < height {
        lines + Seq::new((height - lines.len()) as nat, |i: int| Seq::empty())
    } else {
        lines
    }
}

proof fn lemma_full(rows: Seq<KeyRow>, k: int, n: int, width: int, height: int)
    requires
        0 < k <= n,
        lines_upto(rows, k, width, height).len() >= height,
    ensures
        lines_upto(rows, n, width, height) == lines_upto(rows, k, width, height),
    decreases n,
{
    if k < n {
        lemma_full(rows, k, n - 1, width, height);
    }
}

fn add_row(lines: &mut Vec<Vec<Span>>, row: KeyRow, width: usize)
    ensures
        ui::lines_view(final(lines)@) == ui::lines_view(old(lines)@) + row_lines(
            row,
            width as int,
        ),
{
    let ghost before = ui::lines_view(lines@);
    match row {
        KeyRow::Section(label) => {
            add_line(lines, empty_line());
            let text = join2(" ", label);
            add_line(lines, line_with(truncate_to(&text, width), theme::status_hint()));
        },
        KeyRow::Binding(keys, desc) => {
            let mut text = join2("  ", &pad_right(keys, 22));
            text.append("  ");
            text.append(desc);
            add_line(lines, line_with(truncate_to(&text, width), theme::editor()));
        },
    }
    assert(ui::lines_view(lines@) =~= before + row_lines(row, width as int));
}

/// The lines of the list of keys.
pub fn render_keys_help(width: u16, height: u16) -> (r: Vec<Vec<Span>>)
    ensures
        ui::lines_view(r@) == filled(
            lines_upto(key_rows(), key_rows().len() as int, width as int, height as int),
            height as int,
        ),
{
    let rows = keys_help();
    let ghost all = lines_upto(rows@, rows@.len() as int, width as int, height as int);
    let mut lines: Vec<Vec<Span>> = Vec::new();
    assert(ui::lines_view(lines@) =~= Seq::empty());
    let mut i: usize = 0;
    let mut full = false;
    while i < rows.len() && !full
        invariant
            i <= rows@.len(),
            all == lines_upto(rows@, rows@.len() as int, width as int, height as int),
            ui::lines_view(lines@) == lines_upto(rows@, i as int, width as int, height as int),
            full == (i > 0 && lines@.len() >= height),
        decreases rows@.len() - i,
    {
        add_row(&mut lines, rows[i], width as usize);
        i += 1;
        full = lines.len() >= height as usize;
    }
    proof {
        if i < rows@.len() {
            lemma_full(rows@, i as int, rows@.len() as int, width as int, height as int);
        }
    }
    assert(ui::lines_view(lines@) == all);
    let ghost n = lines@.len() as int;
    assert(filled(all, n) =~= all);
    while lines.len() < height as usize
        invariant
            n == all.len(),
            n <= lines@.len(),
            lines@.len() <= height || lines@.len() == n,
            ui::lines_view(lines@) == filled(all, lines@.len() as int),
        decreases height - lines@.len(),
    {
        let ghost k = lines@.len() as int;
        add_line(&mut lines, empty_line());
        assert(ui::lines_view(lines@) =~= filled(all, k + 1));
    }
    assert(ui::lines_view(lines@).len() == lines@.len());
    lines
}

} // verus!
