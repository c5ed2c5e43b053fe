//! The status bar.

use vstd::prelude::*;

use super::{add_span, line_with, spaces, Span, SpanModel};
use crate::app;
use crate::app::App;
use crate::error;
use crate::error::numbered;
use crate::lsp;
use crate::lsp::Diagnostic;
use crate::order;
use crate::text::{join3, owned, to_chars};
use crate::theme;
use crate::theme::{Color, Style};
use crate::ui;

use vstd::view::View as _;

verus! {

/// The hints while the text has the keys.
pub const HINT_TEXT: &'static str =
    " Ctrl-P keys · Ctrl-X open · Ctrl-T tree · Ctrl-K type · Ctrl-R git · Ctrl-S save ";

pub const KEYS_HINT_TEXT: &'static str = " Esc close · Ctrl-P toggle ";

pub const TREE_HINT_TEXT: &'static str = " ↑/↓ move · Enter open · Esc close · Ctrl-T toggle ";

pub const DIFF_HINT_TEXT: &'static str =
    " ↑/↓ file · s stage · u unstage · c commit · Ctrl-U/D page · Esc close ";

pub const HISTORY_HINT_TEXT: &'static str =
    " ↑/↓ commit · Ctrl-U/D page · Esc close · Ctrl-L toggle ";

/// The bar in another text colour.
pub open spec fn bar_in(c: Color) -> Style {
    Style { fg: Some(c), ..theme::bar_style() }
}

/// The spaces that are left of `width` columns.
pub open spec fn gap(width: int, used: nat) -> SpanModel {
    SpanModel { text: ui::blanks(width - used), style: theme::bar_style() }
}

/// What is left of a width.
fn left_over(width: usize, used: usize) -> (r: usize)
    ensures
        r == (if width > used {
            width - used
        } else {
            0
        }),
{
    if width > used {
        width - used
    } else {
        0
    }
}

// ------------------------------------------------------------------ diagnostics

/// A text on one line: line feeds are shown as dots.
pub open spec fn on_one_line(s: Seq<char>) -> Seq<char>
    decreases s.len(),
{
    if s.len() == 0 {
        Seq::empty()
    } else if s.last() == '\n' {
        on_one_line(s.drop_last()) + " · "@
    } else {
        on_one_line(s.drop_last()).push(s.last())
    }
}

fn flatten(s: &str) -> (r: String)
    ensures
        r@ == on_one_line(s@),
{
    let cs = to_chars(s);
    let mut r = String::new();
    let mut i: usize = 0;
    assert(r@ =~= on_one_line(cs@.take(0)));
    while i < cs.len()
        invariant
            i <= cs@.len(),
            r@ == on_one_line(cs@.take(i as int)),
        decreases cs@.len() - i,
    {
        assert(cs@.take(i + 1).drop_last() =~= cs@.take(i as int));
        if cs[i] == '\n' {
            r.append(" · ");
        } else {
            r.push(cs[i]);
        }
        i += 1;
    }
    assert(cs@.take(i as int) =~= cs@);
    r
}

/// The first diagnostic from `i` on that starts on a line.
pub open spec fn starting_on(ds: Seq<lsp::DiagnosticModel>, line: u32, i: int) -> Option<
    lsp::DiagnosticModel,
>
    decreases ds.len() - i,
{
    if i < 0 || i >= ds.len() {
        None
    } else if ds[i].range.start.line == line {
        Some(ds[i])
    } else {
        starting_on(ds, line, i + 1)
    }
}

/// What a severity is called.
pub open spec fn severity_name(severity: Option<u8>) -> Seq<char> {
    if severity == Some(1u8) {
        "error"@
    } else if severity == Some(2u8) {
        "warn"@
    } else if severity == Some(3u8) {
        "info"@
    } else {
        "hint"@
    }
}

/// What the bar says of a diagnostic.
pub open spec fn diagnostic_text(d: lsp::DiagnosticModel) -> Seq<char> {
    " "@ + severity_name(d.severity) + ": "@ + on_one_line(d.message) + " "@
}

/// The diagnostic of the line that the cursor is on.
pub open spec fn diagnostic_here(m: app::AppModel, ds: Seq<lsp::DiagnosticModel>) -> Option<
    lsp::DiagnosticModel,
> {
    if app::asked_of(m) is Some {
        starting_on(
            ds,
            #[verifier::truncate]
            (m.view.line as u32),
            0,
        )
    } else {
        None
    }
}

fn severity_tag(severity: Option<u8>) -> (r: &'static str)
    ensures
        r@ == severity_name(severity),
{
    match severity {
        Some(1) => "error",
        Some(2) => "warn",
        Some(3) => "info",
        _ => "hint",
    }
}

/// What the bar says of the first diagnostic that starts on the cursor's line, and
/// its severity.
pub fn current_line_diagnostic(app: &App, diagnostics: &Vec<Diagnostic>) -> (r: Option<
    (String, Option<u8>),
>)
    ensures
        match diagnostic_here(app@, order::views_of(diagnostics@)) {
            Some(d) => r is Some && r->Some_0.0@ == diagnostic_text(d) && r->Some_0.1 == d.severity,
            None => r is None,
        },
{
    let ghost ds = order::views_of(diagnostics@);
    if app.ask_whom().is_none() {
        return None;
    }
    let line: u32 = #[verifier::truncate]
    (app.view.cursor_line() as u32);
    let mut i: usize = 0;
    while i < diagnostics.len()
        invariant
            i <= diagnostics@.len(),
            ds == order::views_of(diagnostics@),
            starting_on(ds, line, i as int) == starting_on(ds, line, 0),
            diagnostic_here(app@, ds) == starting_on(ds, line, 0),
        decreases diagnostics@.len() - i,
    {
        assert(ds[i as int] == diagnostics@[i as int]@);
        if diagnostics[i].range.start.line == line {
            let said = flatten(&diagnostics[i].message);
            let mut text = join3(" ", severity_tag(diagnostics[i].severity), ": ");
            text.append(&said);
            text.append(" ");
            return Some((text, diagnostics[i].severity));
        }
        i += 1;
    }
    None
}

// -------------------------------------------------------------------------- bar

/// The badge of the language server, where one was to be started: whether it is
/// indexing, at hand, or could not be started.
pub open spec fn badge(m: app::AppModel, indexing: bool) -> Option<SpanModel> {
    if !m.attempted {
        None
    } else if app::server_of(m) is None {
        Some(SpanModel { text: "lsp! "@, style: bar_in(theme::RED) })
    } else if indexing {
        Some(SpanModel { text: "lsp… "@, style: bar_in(theme::YELLOW) })
    } else {
        Some(SpanModel { text: "lsp "@, style: bar_in(theme::GREEN) })
    }
}

/// The badge of the language server.
pub fn lsp_badge_span(app: &App, indexing: bool) -> (r: Option<Span>)
    ensures
        match r {
            Some(s) => badge(app@, indexing) == Some(s@),
            None => badge(app@, indexing) is None,
        },
{
    if !app.lsp_attempted {
        return None;
    }
    let (text, fg): (&str, Color) = match app.active_server() {
        Some(_) => if indexing {
            ("lsp… ", theme::warn())
        } else {
            ("lsp ", theme::ok())
        },
        None => ("lsp! ", theme::error()),
    };
    Some(Span { text: owned(text), style: theme::status_bar().with_fg(fg) })
}

/// The left of the bar: the file, the cursor's place, and whether there are unsaved
/// changes.
pub open spec fn left_text(m: app::AppModel) -> Seq<char> {
    let path = match m.buffer.path {
        Some(p) => p,
        None => "[scratch]"@,
    };
    let dirty = if m.buffer.dirty {
        "+"@
    } else {
        "·"@
    };
    error::with_number(
        error::with_number(" "@ + path + "  L"@, m.view.line + 1, ":C"@),
        m.view.col + 1,
        "  "@,
    ) + dirty + " "@
}

/// The right of the bar: the status, else the diagnostic of the line, else hints.
pub open spec fn right_span(m: app::AppModel, ds: Seq<lsp::DiagnosticModel>) -> SpanModel {
    if m.status.len() > 0 {
        SpanModel { text: " "@ + m.status + " "@, style: theme::bar_style() }
    } else {
        match diagnostic_here(m, ds) {
            Some(d) => SpanModel {
                text: diagnostic_text(d),
                style: bar_in(theme::severity_color(d.severity)),
            },
            None => SpanModel {
                text: if m.keys_help {
                    KEYS_HINT_TEXT@
                } else if m.history is Some {
                    HISTORY_HINT_TEXT@
                } else if m.diff is Some {
                    DIFF_HINT_TEXT@
                } else if m.tree.focused {
                    TREE_HINT_TEXT@
                } else {
                    HINT_TEXT@
                },
                style: theme::hint_style(),
            },
        }
    }
}

/// The badges: of saving by itself, and of the language server.
pub open spec fn badges(m: app::AppModel, indexing: bool) -> Seq<SpanModel> {
    let auto = if m.autosave {
        seq![SpanModel { text: "auto "@, style: bar_in(theme::GREEN) }]
    } else {
        Seq::empty()
    };
    match badge(m, indexing) {
        Some(b) => auto.push(b),
        None => auto,
    }
}

/// The columns that runs take.
pub open spec fn columns_of(line: Seq<SpanModel>) -> nat
    decreases line.len(),
{
    if line.len() == 0 {
        0
    } else {
        columns_of(line.drop_last()) + line.last().text.len()
    }
}

/// The status bar. A prompt takes it over, and so does the dialog that finds files.
pub open spec fn bar_line(
    m: app::AppModel,
    indexing: bool,
    ds: Seq<lsp::DiagnosticModel>,
    width: int,
) -> Seq<SpanModel> {
    if m.prompt is Some {
        let p = m.prompt->Some_0;
        let text = " "@ + p.label + " "@ + p.text + "_"@;
        seq![
            SpanModel { text, style: theme::bar_style() },
            gap(width, text.len()),
        ]
    } else if m.open_file is Some {
        let v = m.open_file->Some_0;
        let left = " Open file: "@ + v.query + "_"@;
        let right = error::with_number(" "@, v.matches.len() as int, " match(es) "@);
        seq![
            SpanModel { text: left, style: theme::bar_style() },
            gap(width, left.len() + right.len()),
            SpanModel { text: right, style: theme::hint_style() },
        ]
    } else {
        let head = seq![SpanModel { text: left_text(m), style: theme::bar_style() }] + badges(
            m,
            indexing,
        );
        let right = right_span(m, ds);
        head.push(gap(width, columns_of(head) + right.text.len())).push(right)
    }
}

fn right_side(app: &App, diagnostics: &Vec<Diagnostic>) -> (r: Span)
    ensures
        r@ == right_span(app@, order::views_of(diagnostics@)),
{
    if !app.status.as_str().is_empty() {
        return Span { text: join3(" ", &app.status, " "), style: theme::status_bar() };
    }
    match current_line_diagnostic(app, diagnostics) {
        Some((text, severity)) => Span {
            text,
            style: theme::status_bar().with_fg(theme::diagnostic(severity)),
        },
        None => {
            let hint = if app.keys_help {
                KEYS_HINT_TEXT
            } else if app.history.is_some() {
                HISTORY_HINT_TEXT
            } else if app.diff.is_some() {
                DIFF_HINT_TEXT
            } else if app.tree.focused {
                TREE_HINT_TEXT
            } else {
                HINT_TEXT
            };
            Span { text: owned(hint), style: theme::status_hint() }
        },
    }
}

fn left_side(app: &App) -> (r: String)
    requires
        app@.view.line < usize::MAX,
        app@.view.col < usize::MAX,
    ensures
        r@ == left_text(app@),
{
    let path = match app.buffer.path() {
        Some(p) => owned(p),
        None => owned("[scratch]"),
    };
    let dirty = if app.buffer.is_dirty() {
        "+"
    } else {
        "·"
    };
    let line: u64 = app.view.cursor_line() as u64 + 1;
    let col: u64 = app.view.cursor_col() as u64 + 1;
    let head = join3(" ", &path, "  L");
    let place = numbered(&head, line, ":C");
    let mut text = numbered(&place, col, "  ");
    text.append(dirty);
    text.append(" ");
    text
}

fn count(s: &str) -> (r: usize)
    ensures
        r == s@.len(),
{
    to_chars(s).len()
}

fn prompt_bar(label: &str, typed: &str, width: usize) -> (r: Vec<Span>)
    ensures
        order::views_of(r@) == ({
            let text = " "@ + label@ + " "@ + typed@ + "_"@;
            seq![
                SpanModel { text, style: theme::bar_style() },
                gap(width as int, text.len()),
            ]
        }),
{
    let mut text = join3(" ", label, " ");
    text.append(typed);
    text.append("_");
    let pad: usize = left_over(width, count(&text));
    let ghost said = text@;
    let mut line = line_with(text, theme::status_bar());
    add_span(&mut line, spaces(pad), theme::status_bar());
    assert(order::views_of(line@) =~= seq![
        SpanModel { text: said, style: theme::bar_style() },
        gap(width as int, said.len()),
    ]);
    line
}

fn dialog_bar(query: &str, matches: usize, width: usize) -> (r: Vec<Span>)
    ensures
        order::views_of(r@) == ({
            let left = " Open file: "@ + query@ + "_"@;
            let right = error::with_number(" "@, matches as int, " match(es) "@);
            seq![
                SpanModel { text: left, style: theme::bar_style() },
                gap(width as int, left.len() + right.len()),
                SpanModel { text: right, style: theme::hint_style() },
            ]
        }),
{
    let left = join3(" Open file: ", query, "_");
    let right = numbered(" ", matches as u64, " match(es) ");
    let pad: usize = left_over(left_over(width, count(&left)), count(&right));
    let ghost (l, r) = (left@, right@);
    let mut line = line_with(left, theme::status_bar());
    add_span(&mut line, spaces(pad), theme::status_bar());
    add_span(&mut line, right, theme::status_hint());
    assert(order::views_of(line@) =~= seq![
        SpanModel { text: l, style: theme::bar_style() },
        gap(width as int, l.len() + r.len()),
        SpanModel { text: r, style: theme::hint_style() },
    ]);
    line
}

fn room_after(line: &Vec<Span>, width: usize) -> (r: usize)
    ensures
        r == (if width > columns_of(order::views_of(line@)) {
            width - columns_of(order::views_of(line@))
        } else {
            0
        }),
{
    let ghost all = order::views_of(line@);
    let mut r: usize = width;
    let mut i: usize = 0;
    assert(all.take(0) =~= Seq::empty());
    while i < line.len()
        invariant
            i <= line@.len(),
            all == order::views_of(line@),
            r == (if width > columns_of(all.take(i as int)) {
                width - columns_of(all.take(i as int))
            } else {
                0
            }),
        decreases line@.len() - i,
    {
        assert(all.take(i + 1).drop_last() =~= all.take(i as int));
        assert(all[i as int] == line@[i as int]@);
        r = left_over(r, count(&line[i].text));
        i += 1;
    }
    assert(all.take(i as int) =~= all);
    r
}

/// The status bar. `indexing` and `diagnostics` are what is known of the language
/// server.
pub fn render_status(app: &App, indexing: bool, diagnostics: &Vec<Diagnostic>, width: u16) -> (r:
    Vec<Span>)
    requires
        app@.view.line < usize::MAX,
        app@.view.col < usize::MAX,
    ensures
        order::views_of(r@) == bar_line(
            app@,
            indexing,
            order::views_of(diagnostics@),
            width as int,
        ),
{
    match &app.prompt {
        Some(p) => {
            return prompt_bar(p.label, &p.buffer, width as usize);
        },
        None => {},
    }
    match &app.open_file {
        Some(v) => {
            return dialog_bar(&v.query, v.matches.len(), width as usize);
        },
        None => {},
    }
    let ghost ds = order::views_of(diagnostics@);
    let ghost head = seq![SpanModel { text: left_text(app@), style: theme::bar_style() }]
        + badges(app@, indexing);
    let mut line = line_with(left_side(app), theme::status_bar());
    if app.autosave {
        add_span(&mut line, owned("auto "), theme::status_bar().with_fg(theme::ok()));
    }
    match lsp_badge_span(app, indexing) {
        Some(b) => add_span(&mut line, b.text, b.style),
        None => {},
    }
    assert(order::views_of(line@) =~= head);
    let right = right_side(app, diagnostics);
    let room: usize = room_after(&line, width as usize);
    let pad: usize = left_over(room, count(&right.text));
    add_span(&mut line, spaces(pad), theme::status_bar());
    add_span(&mut line, right.text, right.style);
    line
}

} // verus!
