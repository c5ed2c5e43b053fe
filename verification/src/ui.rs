//! What the screen shows: lines of painted text, row by row.
//!
//! The functions here take the size of a pane and give the lines that fill it.

use vstd::prelude::*;

use crate::app;
use crate::app::session;
use crate::app::App;
use crate::git::LineStatus;
use crate::order;
use crate::rope;
use crate::scan;
use crate::scan::number;
use crate::syntax;
use crate::syntax::{style_for, HighlightSpan};
use crate::text;
use crate::text::{owned, substring, to_chars};
use crate::theme;
use crate::theme::Style;

pub mod frames;
pub mod help;
pub mod laws;
pub mod lists;
pub mod status;

verus! {

/// A run of text in one style.
#[derive(Debug)]
pub struct Span {
    pub text: String,
    pub style: Style,
}

/// What a run is.
#[verifier::ext_equal]
pub struct SpanModel {
    pub text: Seq<char>,
    pub style: Style,
}

impl View for Span {
    type V = SpanModel;

    open spec fn view(&self) -> SpanModel {
        SpanModel { text: self.text@, style: self.style }
    }
}

/// The runs of each line.
pub open spec fn lines_view(v: Seq<Vec<Span>>) -> Seq<Seq<SpanModel>> {
    Seq::new(v.len(), |i: int| order::views_of(v[i]@))
}

/// A line with one run.
pub open spec fn single(text: Seq<char>, style: Style) -> Seq<SpanModel> {
    seq![SpanModel { text, style }]
}

pub(crate) fn empty_line() -> (r: Vec<Span>)
    ensures
        order::views_of(r@) == Seq::<SpanModel>::empty(),
{
    let r: Vec<Span> = Vec::new();
    assert(order::views_of(r@) =~= Seq::empty());
    r
}

pub(crate) fn line_with(text: String, style: Style) -> (r: Vec<Span>)
    ensures
        order::views_of(r@) == single(text@, style),
{
    let mut r: Vec<Span> = Vec::new();
    r.push(Span { text, style });
    assert(order::views_of(r@) =~= single(text@, style));
    r
}

pub(crate) fn add_span(line: &mut Vec<Span>, text: String, style: Style)
    ensures
        order::views_of(final(line)@) == order::views_of(old(line)@).push(
            SpanModel { text: text@, style },
        ),
{
    let ghost before = order::views_of(line@);
    line.push(Span { text, style });
    assert(order::views_of(line@) =~= before.push(SpanModel { text: text@, style }));
}

pub(crate) fn add_line(lines: &mut Vec<Vec<Span>>, line: Vec<Span>)
    ensures
        lines_view(final(lines)@) == lines_view(old(lines)@).push(order::views_of(line@)),
{
    let ghost before = lines_view(lines@);
    let ghost model = order::views_of(line@);
    lines.push(line);
    assert(lines_view(lines@) =~= before.push(model));
}

// ------------------------------------------------------------------------- text

/// The first `width` characters of a text.
pub open spec fn truncated(s: Seq<char>, width: int) -> Seq<char> {
    if s.len() > width {
        s.take(width)
    } else {
        s
    }
}

/// The first `width` characters of a text.
pub fn truncate_to(s: &str, width: usize) -> (r: String)
    ensures
        r@ == truncated(s@, width as int),
{
    let cs = to_chars(s);
    if cs.len() > width {
        let r = substring(&cs, 0, width);
        assert(r@ =~= s@.take(width as int));
        r
    } else {
        owned(s)
    }
}

/// A run of spaces.
pub open spec fn blanks(n: int) -> Seq<char> {
    if n <= 0 {
        Seq::empty()
    } else {
        Seq::new(n as nat, |i: int| ' ')
    }
}

pub(crate) fn spaces(n: usize) -> (r: String)
    ensures
        r@ == blanks(n as int),
{
    let mut r = String::new();
    let mut i: usize = 0;
    assert(r@ =~= blanks(0));
    while i < n
        invariant
            i <= n,
            r@ == blanks(i as int),
        decreases n - i,
    {
        r.push(' ');
        i += 1;
        assert(r@ =~= blanks(i as int));
    }
    r
}

/// A text with spaces behind it, to a width.
pub open spec fn padded_right(s: Seq<char>, width: int) -> Seq<char> {
    s + blanks(width - s.len())
}

pub(crate) fn pad_right(s: &str, width: usize) -> (r: String)
    ensures
        r@ == padded_right(s@, width as int),
{
    let n: usize = to_chars(s).len();
    let mut r = owned(s);
    let gap = spaces(
        if width > n {
            width - n
        } else {
            0
        },
    );
    r.append(&gap);
    r
}

/// A text with spaces before it, to a width.
pub open spec fn padded_left(s: Seq<char>, width: int) -> Seq<char> {
    blanks(width - s.len()) + s
}

pub(crate) fn pad_left(s: &str, width: usize) -> (r: String)
    ensures
        r@ == padded_left(s@, width as int),
{
    let n: usize = to_chars(s).len();
    let mut r = spaces(
        if width > n {
            width - n
        } else {
            0
        },
    );
    r.append(s);
    r
}

/// The place of row `r` in a list that is shown from `top` on.
pub(crate) fn row_at(top: usize, r: usize, len: usize) -> (i: Option<usize>)
    ensures
        i == (if top + r < len {
            Some((top + r) as usize)
        } else {
            None
        }),
{
    if top < len && r < len - top {
        Some(top + r)
    } else {
        None
    }
}

// ----------------------------------------------------------------------- layout

/// The columns that the file tree takes.
pub const TREE_WIDTH: u16 = 30;

/// What fills the area of the text.
#[derive(Clone, Copy, Debug, PartialEq, Eq, Structural)]
pub enum Pane {
    Keys,
    OpenFile,
    History,
    Changes,
    Text,
}

/// What fills the area of the text: the topmost overlay that is open, or the text.
pub open spec fn pane_shown(m: app::AppModel) -> Pane {
    if m.keys_help {
        Pane::Keys
    } else if m.open_file is Some {
        Pane::OpenFile
    } else if m.history is Some {
        Pane::History
    } else if m.diff is Some {
        Pane::Changes
    } else {
        Pane::Text
    }
}

/// What fills the area of the text.
pub fn pane_of(app: &App) -> (r: Pane)
    ensures
        r == pane_shown(app@),
{
    if app.keys_help {
        Pane::Keys
    } else if app.open_file.is_some() {
        Pane::OpenFile
    } else if app.history.is_some() {
        Pane::History
    } else if app.diff.is_some() {
        Pane::Changes
    } else {
        Pane::Text
    }
}

/// How many rows of text there are: the last one is the status bar.
pub fn text_viewport_rows(height: u16) -> (r: u16)
    ensures
        r == app::text_rows(height),
{
    if height > 0 {
        height - 1
    } else {
        0
    }
}

/// Where the cursor is shown in the pane of the text: at its column and row, while
/// the text has the keys and the place lies in the pane.
pub open spec fn cursor_cell(m: app::AppModel, width: u16, height: u16) -> Option<(u16, u16)> {
    let row = if m.view.line > m.view.top {
        #[verifier::truncate]
        ((m.view.line - m.view.top) as u16)
    } else {
        0
    };
    let col = #[verifier::truncate]
    (m.view.col as u16);
    if pane_shown(m) == Pane::Text && !m.tree.focused && row < height && col < width {
        Some((col, row))
    } else {
        None
    }
}

/// Where the cursor is shown.
pub fn place_cursor(app: &App, width: u16, height: u16) -> (r: Option<(u16, u16)>)
    ensures
        r == cursor_cell(app@, width, height),
{
    if pane_of(app) != Pane::Text || app.tree.focused {
        return None;
    }
    let line: usize = app.view.cursor_line();
    let top: usize = app.view.top_line();
    let row: u16 = if line > top {
        #[verifier::truncate]
        ((line - top) as u16)
    } else {
        0
    };
    let col: u16 = #[verifier::truncate]
    (app.view.cursor_col() as u16);
    if row < height && col < width {
        Some((col, row))
    } else {
        None
    }
}

/// Where a list is shown from, so that the selected row is visible.
pub open spec fn list_top(cursor: int, viewport: int, total: int) -> int {
    if viewport == 0 || total <= viewport || cursor < viewport {
        0
    } else {
        cursor + 1 - viewport
    }
}

/// Where a list is shown from.
pub fn scroll_top(cursor_row: usize, viewport: usize, total_rows: usize) -> (r: usize)
    ensures
        r == list_top(cursor_row as int, viewport as int, total_rows as int),
{
    if viewport == 0 || total_rows <= viewport || cursor_row < viewport {
        0
    } else {
        cursor_row - (viewport - 1)
    }
}

/// The selected row of a list is among those that are shown.
pub proof fn law_selection_is_visible(cursor: int, viewport: int, total: int)
    requires
        0 <= cursor < total,
        viewport > 0,
    ensures
        list_top(cursor, viewport, total) <= cursor < list_top(cursor, viewport, total) + viewport,
{
}

// ----------------------------------------------------------------------- gutter

/// The columns beside the text: the digits of the highest line number, a space and
/// a mark.
pub open spec fn gutter_columns(line_count: nat) -> nat {
    scan::decimal(
        if line_count == 0 {
            1
        } else {
            line_count
        },
    ).len() + 2
}

spec fn ten_to(k: nat) -> nat
    decreases k,
{
    if k == 0 {
        1
    } else {
        10 * ten_to((k - 1) as nat)
    }
}

proof fn lemma_digits(n: nat, k: nat)
    requires
        k > 0,
        n < ten_to(k),
    ensures
        scan::decimal(n).len() <= k,
    decreases k,
{
    if n >= 10 {
        if k == 1 {
            reveal_with_fuel(ten_to, 2);
        } else {
            lemma_digits(n / 10, (k - 1) as nat);
        }
    }
}

/// The columns beside the text.
pub fn gutter_width(line_count: usize) -> (r: u16)
    ensures
        r == gutter_columns(line_count as nat),
{
    let shown: u64 = if line_count == 0 {
        1
    } else {
        line_count as u64
    };
    proof {
        reveal_with_fuel(ten_to, 21);
        lemma_digits(shown as nat, 20);
    }
    let digits: usize = to_chars(&number(shown)).len();
    (digits + 2) as u16
}

/// The mark of a line that was changed since the last commit.
pub open spec fn mark_of(status: Option<LineStatus>) -> SpanModel {
    match status {
        Some(LineStatus::Added) => SpanModel {
            text: "+"@,
            style: Style { fg: Some(theme::GREEN), ..theme::gutter_style() },
        },
        Some(LineStatus::Modified) => SpanModel {
            text: "~"@,
            style: Style { fg: Some(theme::YELLOW), ..theme::gutter_style() },
        },
        Some(LineStatus::DeletedAbove) => SpanModel {
            text: "\u{203E}"@,
            style: Style { fg: Some(theme::RED), ..theme::gutter_style() },
        },
        None => SpanModel { text: " "@, style: theme::unstyled() },
    }
}

/// What stands beside a line.
pub open spec fn gutter_row(m: app::AppModel, line: int, columns: int) -> Seq<SpanModel> {
    if line < rope::line_count(m.buffer.text) {
        seq![
            SpanModel {
                text: padded_left(
                    scan::decimal((line + 1) as nat),
                    if columns > 2 {
                        columns - 2
                    } else {
                        0
                    },
                ),
                style: theme::gutter_style(),
            },
            SpanModel { text: " "@, style: theme::unstyled() },
            mark_of(
                session::status_of_line(m.git_status, line as nat, m.git_status.len() as int),
            ),
        ]
    } else {
        Seq::empty()
    }
}

fn git_marker_span(app: &App, line: usize) -> (r: Span)
    ensures
        r@ == mark_of(
            session::status_of_line(
                app@.git_status,
                line as nat,
                app@.git_status.len() as int,
            ),
        ),
{
    let ground = theme::gutter();
    match app.line_status(line) {
        Some(LineStatus::Added) => Span { text: owned("+"), style: ground.with_fg(theme::ok()) },
        Some(LineStatus::Modified) => Span {
            text: owned("~"),
            style: ground.with_fg(theme::warn()),
        },
        Some(LineStatus::DeletedAbove) => Span {
            text: owned("\u{203E}"),
            style: ground.with_fg(theme::error()),
        },
        None => Span { text: owned(" "), style: Style::plain() },
    }
}

/// The lines beside the text.
pub fn render_gutter(app: &App, columns: u16, height: u16) -> (r: Vec<Vec<Span>>)
    ensures
        lines_view(r@) == Seq::new(
            height as nat,
            |i: int| gutter_row(app@, app@.view.top + i, columns as int),
        ),
{
    let ghost all = Seq::new(
        height as nat,
        |i: int| gutter_row(app@, app@.view.top + i, columns as int),
    );
    let total: usize = app.buffer.line_count();
    let width: usize = if columns > 2 {
        (columns - 2) as usize
    } else {
        0
    };
    let mut lines: Vec<Vec<Span>> = Vec::new();
    let mut i: usize = 0;
    assert(lines_view(lines@) =~= all.take(0));
    while i < height as usize
        invariant
            i <= height,
            total == rope::line_count(app@.buffer.text),
            width == (if columns > 2 {
                columns - 2
            } else {
                0
            }),
            all == Seq::new(
                height as nat,
                |i: int| gutter_row(app@, app@.view.top + i, columns as int),
            ),
            lines_view(lines@) == all.take(i as int),
        decreases height - i,
    {
        let line = match row_at(app.view.top_line(), i, total) {
            Some(k) => {
                let digits = number(k as u64 + 1);
                let mut line = line_with(pad_left(&digits, width), theme::gutter());
                add_span(&mut line, owned(" "), Style::plain());
                let mark = git_marker_span(app, k);
                add_span(&mut line, mark.text, mark.style);
                assert(order::views_of(line@) =~= all[i as int]);
                line
            },
            None => empty_line(),
        };
        add_line(&mut lines, line);
        i += 1;
        assert(all.take(i as int) =~= all.take(i - 1).push(all[i - 1]));
    }
    assert(all.take(i as int) =~= all);
    lines
}

// ------------------------------------------------------------------------- text

/// A line without its line break.
pub open spec fn without_break(s: Seq<char>) -> Seq<char> {
    if s.len() > 0 && s.last() == '\n' {
        let t = s.drop_last();
        if t.len() > 0 && t.last() == '\r' {
            t.drop_last()
        } else {
            t
        }
    } else {
        s
    }
}

/// The runs of a line from column `i` on, where the spans before `k` are done
/// with: what lies in a span has its style, and what lies between spans has none.
pub open spec fn pieces(cs: Seq<char>, spans: Seq<HighlightSpan>, i: int, k: int) -> Seq<SpanModel>
    decreases cs.len() - i, spans.len() - k,
{
    let n = cs.len() as int;
    if i < 0 || k < 0 || i >= n {
        Seq::empty()
    } else if k < spans.len() && spans[k].col_end <= i {
        pieces(cs, spans, i, k + 1)
    } else if k >= spans.len() || spans[k].col_start >= n {
        single(cs.subrange(i, n), theme::unstyled())
    } else if i < spans[k].col_start {
        let end = spans[k].col_start as int;
        single(cs.subrange(i, end), theme::unstyled()) + pieces(cs, spans, end, k)
    } else {
        let end = if spans[k].col_end < n {
            spans[k].col_end as int
        } else {
            n
        };
        single(cs.subrange(i, end), syntax::highlight_style(spans[k].capture_idx)) + pieces(
            cs,
            spans,
            end,
            k,
        )
    }
}

/// The text of a line of runs.
pub open spec fn text_of(line: Seq<SpanModel>) -> Seq<char>
    decreases line.len(),
{
    if line.len() == 0 {
        Seq::empty()
    } else {
        line[0].text + text_of(line.skip(1))
    }
}

/// However a line is painted, its text is shown in full.
pub proof fn law_painting_keeps_text(cs: Seq<char>, spans: Seq<HighlightSpan>, i: int, k: int)
    requires
        0 <= i <= cs.len(),
        0 <= k,
    ensures
        text_of(pieces(cs, spans, i, k)) == cs.skip(i),
    decreases cs.len() - i, spans.len() - k,
{
    let n = cs.len() as int;
    if i >= n {
        assert(cs.skip(i) =~= Seq::empty());
    } else if k < spans.len() && spans[k].col_end <= i {
        law_painting_keeps_text(cs, spans, i, k + 1);
    } else {
        let end = if k >= spans.len() || spans[k].col_start >= n {
            n
        } else if i < spans[k].col_start {
            spans[k].col_start as int
        } else if spans[k].col_end < n {
            spans[k].col_end as int
        } else {
            n
        };
        law_painting_keeps_text(cs, spans, end, k);
        let line = pieces(cs, spans, i, k);
        assert(cs.subrange(i, end) + cs.skip(end) =~= cs.skip(i));
        assert(line[0].text == cs.subrange(i, end));
        if k >= spans.len() || spans[k].col_start >= n {
            assert(line.skip(1) =~= Seq::empty());
            assert(cs.skip(n) =~= Seq::empty());
        } else {
            assert(line.skip(1) =~= pieces(cs, spans, end, k));
        }
    }
}

/// Cuts a line into runs. The spans are those of the line, from left to right.
pub fn build_line(cs: &[char], spans: &[HighlightSpan]) -> (r: Vec<Span>)
    ensures
        order::views_of(r@) == pieces(cs@, spans@, 0, 0),
{
    let ghost all = pieces(cs@, spans@, 0, 0);
    let n: usize = cs.len();
    let mut out: Vec<Span> = Vec::new();
    let mut i: usize = 0;
    let mut k: usize = 0;
    assert(order::views_of(out@) =~= Seq::empty());
    assert(Seq::<SpanModel>::empty() + all =~= all);
    while i < n
        invariant
            i <= n == cs@.len(),
            k <= spans@.len(),
            order::views_of(out@) + pieces(cs@, spans@, i as int, k as int) == all,
        decreases n - i, spans@.len() - k,
    {
        if k < spans.len() && spans[k].col_end <= i {
            k += 1;
            continue ;
        }
        let ghost before = order::views_of(out@);
        let (end, style): (usize, Style) = if k >= spans.len() || spans[k].col_start >= n {
            (n, Style::plain())
        } else if i < spans[k].col_start {
            (spans[k].col_start, Style::plain())
        } else if spans[k].col_end < n {
            (spans[k].col_end, style_for(spans[k].capture_idx))
        } else {
            (n, style_for(spans[k].capture_idx))
        };
        let piece = substring(cs, i, end);
        let ghost rest = pieces(cs@, spans@, end as int, k as int);
        assert(pieces(cs@, spans@, i as int, k as int) =~= single(piece@, style) + rest);
        add_span(&mut out, piece, style);
        assert(order::views_of(out@) + rest =~= before + (single(piece@, style) + rest));
        i = end;
    }
    assert(order::views_of(out@) =~= all);
    out
}

/// A line of the text as it is shown.
pub open spec fn text_row(m: app::AppModel, line: int, width: int) -> Seq<SpanModel> {
    if line < rope::line_count(m.buffer.text) {
        pieces(
            truncated(without_break(rope::line_text(m.buffer.text, line)), width),
            match m.syntax {
                Some(x) => if line < x.spans.len() {
                    x.spans[line]
                } else {
                    Seq::empty()
                },
                None => Seq::empty(),
            },
            0,
            0,
        )
    } else {
        Seq::empty()
    }
}

fn shown_len(cs: &Vec<char>) -> (r: usize)
    ensures
        r <= cs@.len(),
        cs@.take(r as int) == without_break(cs@),
{
    let n: usize = cs.len();
    if n > 0 && cs[n - 1] == '\n' {
        if n > 1 && cs[n - 2] == '\r' {
            assert(cs@.take(n - 2) =~= without_break(cs@));
            n - 2
        } else {
            assert(cs@.take(n - 1) =~= without_break(cs@));
            n - 1
        }
    } else {
        assert(cs@.take(n as int) =~= cs@);
        n
    }
}

fn text_line(app: &App, line: usize, width: usize) -> (r: Vec<Span>)
    requires
        line < rope::line_count(app@.buffer.text),
    ensures
        order::views_of(r@) == text_row(app@, line as int, width as int),
{
    let cs = to_chars(&app.buffer.line(line));
    let mut n: usize = shown_len(&cs);
    if n > width {
        n = width;
    }
    let shown = scan::sub_chars(&cs, 0, n);
    assert(shown@ =~= truncated(without_break(cs@), width as int));
    let spans = match &app.syntax {
        Some(x) => x.line_spans(line),
        None => {
            let none: Vec<HighlightSpan> = Vec::new();
            none
        },
    };
    build_line(&shown, &spans)
}

/// The lines of the text.
pub fn render_text(app: &App, width: u16, height: u16) -> (r: Vec<Vec<Span>>)
    ensures
        lines_view(r@) == Seq::new(
            height as nat,
            |i: int| text_row(app@, app@.view.top + i, width as int),
        ),
{
    let ghost all = Seq::new(
        height as nat,
        |i: int| text_row(app@, app@.view.top + i, width as int),
    );
    let total: usize = app.buffer.line_count();
    let mut lines: Vec<Vec<Span>> = Vec::new();
    let mut i: usize = 0;
    assert(lines_view(lines@) =~= all.take(0));
    while i < height as usize
        invariant
            i <= height,
            total == rope::line_count(app@.buffer.text),
            all == Seq::new(
                height as nat,
                |i: int| text_row(app@, app@.view.top + i, width as int),
            ),
            lines_view(lines@) == all.take(i as int),
        decreases height - i,
    {
        let line = match row_at(app.view.top_line(), i, total) {
            Some(k) => text_line(app, k, width as usize),
            None => empty_line(),
        };
        assert(order::views_of(line@) == all[i as int]);
        add_line(&mut lines, line);
        i += 1;
        assert(all.take(i as int) =~= all.take(i - 1).push(all[i - 1]));
    }
    assert(all.take(i as int) =~= all);
    lines
}

} // verus!
