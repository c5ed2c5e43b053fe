//! The cursor and the scroll position of one pane.

use vstd::prelude::*;
use vstd::view::View as _;

use crate::buffer;
use crate::buffer::Buffer;
use crate::rope;
use crate::text;
use crate::text::{is_whitespace, to_chars};

verus! {

/// Cursor line and column, the column that vertical movement aims for, and the
/// first visible line.
#[derive(Clone, Copy, PartialEq, Eq, Structural)]
pub struct View {
    cursor_line: usize,
    cursor_col: usize,
    sticky_col: usize,
    top_line: usize,
}

/// What a view is.
pub struct ViewModel {
    pub line: int,
    pub col: int,
    pub sticky: int,
    pub top: int,
}

impl vstd::view::View for View {
    type V = ViewModel;

    closed spec fn view(&self) -> ViewModel {
        ViewModel {
            line: self.cursor_line as int,
            col: self.cursor_col as int,
            sticky: self.sticky_col as int,
            top: self.top_line as int,
        }
    }
}

pub open spec fn min(a: int, b: int) -> int {
    if a <= b {
        a
    } else {
        b
    }
}

pub open spec fn max(a: int, b: int) -> int {
    if a >= b {
        a
    } else {
        b
    }
}

/// The cursor stands on a line of the text, at most at its last column.
pub open spec fn in_text(v: ViewModel, s: Seq<char>) -> bool {
    &&& 0 <= v.line < rope::line_count(s)
    &&& 0 <= v.col <= rope::line_len(s, v.line)
}

/// The cursor stands on a line of the text, and its column leads no further than
/// the end of the text. An edit next to a line break can leave the cursor past
/// the last column of its line.
pub open spec fn within(v: ViewModel, s: Seq<char>) -> bool {
    &&& 0 <= v.line < rope::line_count(s)
    &&& 0 <= v.col
    &&& cursor(v, s) <= s.len()
}

/// The position that the cursor stands at.
pub open spec fn cursor(v: ViewModel, s: Seq<char>) -> int {
    rope::line_start(s, v.line) + v.col
}

/// The view with its cursor, and the column to aim for, moved.
pub open spec fn moved(v: ViewModel, line: int, col: int) -> ViewModel {
    ViewModel { line, col, sticky: col, top: v.top }
}

/// The view with its cursor on another line, as near to the column aimed for as
/// that line allows.
pub open spec fn on_line(v: ViewModel, s: Seq<char>, line: int) -> ViewModel {
    ViewModel { line, col: min(v.sticky, rope::line_len(s, line) as int), ..v }
}

/// The view with its cursor at position `i`; a position past the last column of
/// its line stands for that column.
pub open spec fn at_position(v: ViewModel, s: Seq<char>, i: int) -> ViewModel {
    let line = rope::line_of(s, i) as int;
    moved(v, line, min(i - rope::line_start(s, line), rope::line_len(s, line) as int))
}

pub open spec fn left_of(v: ViewModel, s: Seq<char>) -> ViewModel {
    if v.col > 0 {
        moved(v, v.line, v.col - 1)
    } else if v.line > 0 {
        moved(v, v.line - 1, rope::line_len(s, v.line - 1) as int)
    } else {
        moved(v, v.line, v.col)
    }
}

pub open spec fn right_of(v: ViewModel, s: Seq<char>) -> ViewModel {
    if v.col < rope::line_len(s, v.line) {
        moved(v, v.line, v.col + 1)
    } else if v.line + 1 < rope::line_count(s) {
        moved(v, v.line + 1, 0)
    } else {
        moved(v, v.line, v.col)
    }
}

pub open spec fn above(v: ViewModel, s: Seq<char>) -> ViewModel {
    if v.line == 0 {
        moved(v, 0, 0)
    } else {
        on_line(v, s, v.line - 1)
    }
}

pub open spec fn below(v: ViewModel, s: Seq<char>) -> ViewModel {
    if v.line + 1 >= rope::line_count(s) {
        moved(v, v.line, rope::line_len(s, v.line) as int)
    } else {
        on_line(v, s, v.line + 1)
    }
}

pub open spec fn page_step(rows: u16) -> int {
    max(rows as int, 1)
}

pub open spec fn paged_up(v: ViewModel, s: Seq<char>, rows: u16) -> ViewModel {
    let up = on_line(v, s, max(v.line - page_step(rows), 0));
    ViewModel { top: max(v.top - page_step(rows), 0), ..up }
}

pub open spec fn paged_down(v: ViewModel, s: Seq<char>, rows: u16) -> ViewModel {
    let last = rope::line_count(s) - 1;
    let down = on_line(v, s, min(v.line + page_step(rows), last));
    ViewModel { top: min(v.top + page_step(rows), last), ..down }
}

/// The first visible line once line `line` has to be among `rows` of them.
pub open spec fn scrolled(top: int, line: int, rows: int) -> int {
    if line < top {
        line
    } else if line >= top + rows {
        line + 1 - rows
    } else {
        top
    }
}

/// A character of a word.
pub open spec fn word_char(c: char) -> bool {
    text::unicode_alphanumeric(c) || c == '_'
}

/// A character of a run of punctuation.
pub open spec fn punctuation(c: char) -> bool {
    !word_char(c) && !text::whitespace(c)
}

/// Where the run of characters that satisfy `p` from position `i` on ends.
pub open spec fn run_end(s: Seq<char>, i: int, p: spec_fn(char) -> bool) -> int
    decreases s.len() - i,
{
    if 0 <= i < s.len() && p(s[i]) {
        run_end(s, i + 1, p)
    } else {
        i
    }
}

/// Where the run of characters that satisfy `p` before position `i` starts.
pub open spec fn run_start(s: Seq<char>, i: int, p: spec_fn(char) -> bool) -> int
    decreases i,
{
    if 0 < i <= s.len() && p(s[i - 1]) {
        run_start(s, i - 1, p)
    } else {
        i
    }
}

/// The start of the next word: past the rest of the run that `i` is in, then
/// past whitespace.
pub open spec fn next_word(s: Seq<char>, i: int) -> int {
    let after_run = if word_char(s[i]) {
        run_end(s, i, |c: char| word_char(c))
    } else {
        run_end(s, i, |c: char| punctuation(c))
    };
    run_end(s, after_run, |c: char| text::whitespace(c))
}

/// The start of the run before position `i`: back over whitespace, then over the
/// word or the punctuation.
pub open spec fn previous_word(s: Seq<char>, i: int) -> int {
    let j = run_start(s, i, |c: char| text::whitespace(c));
    if j <= 0 {
        0
    } else {
        let word = word_char(s[j - 1]);
        run_start(s, j, |c: char| !text::whitespace(c) && word_char(c) == word)
    }
}

pub open spec fn word_right_of(v: ViewModel, s: Seq<char>) -> ViewModel {
    if cursor(v, s) >= s.len() {
        v
    } else {
        at_position(v, s, next_word(s, cursor(v, s)))
    }
}

pub open spec fn word_left_of(v: ViewModel, s: Seq<char>) -> ViewModel {
    if cursor(v, s) == 0 {
        v
    } else {
        at_position(v, s, previous_word(s, cursor(v, s)))
    }
}

/// Line and column after text `t` is typed at `(line, col)`.
pub open spec fn typed(line: int, col: int, t: Seq<char>) -> (int, int)
    decreases t.len(),
{
    if t.len() == 0 {
        (line, col)
    } else {
        let before = typed(line, col, t.drop_last());
        if t.last() == '\n' {
            (before.0 + 1, 0)
        } else {
            (before.0, before.1 + 1)
        }
    }
}

/// The view after `t` was typed at the cursor and the text became `s`.
pub open spec fn after_typing(v: ViewModel, s: Seq<char>, t: Seq<char>) -> ViewModel {
    let (line, col) = typed(v.line, v.col, t);
    ViewModel { line, col: min(col, rope::line_len(s, line) as int), sticky: col, top: v.top }
}

/// The view with its cursor at `(line, col)`, or the nearest place to it.
pub open spec fn gone_to(v: ViewModel, s: Seq<char>, line: int, col: int) -> ViewModel {
    let l = min(line, rope::line_count(s) - 1);
    moved(v, l, min(col, rope::line_len(s, l) as int))
}

proof fn lemma_run_end(s: Seq<char>, i: int, p: spec_fn(char) -> bool)
    requires
        0 <= i <= s.len(),
    ensures
        i <= run_end(s, i, p) <= s.len(),
    decreases s.len() - i,
{
    if i < s.len() && p(s[i]) {
        lemma_run_end(s, i + 1, p);
    }
}

pub proof fn lemma_typed(line: int, col: int, t: Seq<char>)
    ensures
        typed(line, col, t).0 == line + buffer::newlines(t),
        0 <= col ==> 0 <= typed(line, col, t).1 <= col + t.len(),
    decreases t.len(),
{
    if t.len() > 0 {
        lemma_typed(line, col, t.drop_last());
    }
}

/// Whether `c` is a character of a word.
pub fn is_word_char(c: char) -> (r: bool)
    ensures
        r == word_char(c),
{
    c.is_alphanumeric() || c == '_'
}

impl View {
    /// A view at the start of a text.
    pub fn new() -> (r: View)
        ensures
            r@ == (ViewModel { line: 0, col: 0, sticky: 0, top: 0 }),
    {
        View { cursor_line: 0, cursor_col: 0, sticky_col: 0, top_line: 0 }
    }

    pub fn cursor_line(&self) -> (r: usize)
        ensures
            r == self@.line,
    {
        self.cursor_line
    }

    pub fn cursor_col(&self) -> (r: usize)
        ensures
            r == self@.col,
    {
        self.cursor_col
    }

    pub fn top_line(&self) -> (r: usize)
        ensures
            r == self@.top,
    {
        self.top_line
    }

    pub fn move_left(&mut self, buf: &Buffer)
        requires
            0 <= old(self)@.line < rope::line_count(buf@.text),
        ensures
            final(self)@ == left_of(old(self)@, buf@.text),
    {
        if self.cursor_col > 0 {
            self.cursor_col -= 1;
        } else if self.cursor_line > 0 {
            self.cursor_line -= 1;
            self.cursor_col = buf.line_len_chars(self.cursor_line);
        }
        self.sticky_col = self.cursor_col;
    }

    pub fn move_right(&mut self, buf: &Buffer)
        requires
            0 <= old(self)@.line < rope::line_count(buf@.text),
        ensures
            final(self)@ == right_of(old(self)@, buf@.text),
    {
        let line_len: usize = buf.line_len_chars(self.cursor_line);
        let count: usize = buf.line_count();
        if self.cursor_col < line_len {
            self.cursor_col += 1;
        } else if self.cursor_line + 1 < count {
            self.cursor_line += 1;
            self.cursor_col = 0;
        }
        self.sticky_col = self.cursor_col;
    }

    pub fn move_up(&mut self, buf: &Buffer)
        requires
            0 <= old(self)@.line < rope::line_count(buf@.text),
        ensures
            final(self)@ == above(old(self)@, buf@.text),
    {
        if self.cursor_line == 0 {
            self.cursor_col = 0;
            self.sticky_col = 0;
            return;
        }
        self.cursor_line -= 1;
        self.cursor_col = smaller(self.sticky_col, buf.line_len_chars(self.cursor_line));
    }

    pub fn move_down(&mut self, buf: &Buffer)
        requires
            0 <= old(self)@.line < rope::line_count(buf@.text),
        ensures
            final(self)@ == below(old(self)@, buf@.text),
    {
        let count: usize = buf.line_count();
        if self.cursor_line + 1 >= count {
            let line_len: usize = buf.line_len_chars(self.cursor_line);
            self.cursor_col = line_len;
            self.sticky_col = line_len;
            return;
        }
        self.cursor_line += 1;
        self.cursor_col = smaller(self.sticky_col, buf.line_len_chars(self.cursor_line));
    }

    /// Jumps to the start of the next word.
    pub fn move_word_right(&mut self, buf: &Buffer)
        requires
            within(old(self)@, buf@.text),
        ensures
            final(self)@ == word_right_of(old(self)@, buf@.text),
    {
        let ghost s = buf@.text;
        let total: usize = buf.len_chars();
        let start: usize = self.char_idx(buf);
        if start >= total {
            return;
        }
        let mut i: usize = start;
        let ghost word = |c: char| word_char(c);
        let ghost punct = |c: char| punctuation(c);
        let ghost space = |c: char| text::whitespace(c);
        if is_word_char(buf.char_at(i)) {
            while i < total && is_word_char(buf.char_at(i))
                invariant
                    i <= total == s.len(),
                    s == buf@.text,
                    word == |c: char| word_char(c),
                    run_end(s, start as int, word) == run_end(s, i as int, word),
                decreases total - i,
            {
                i += 1;
            }
            assert(i == run_end(s, start as int, word));
        } else {
            while i < total && !is_word_char(buf.char_at(i)) && !is_whitespace(buf.char_at(i))
                invariant
                    i <= total == s.len(),
                    s == buf@.text,
                    punct == |c: char| punctuation(c),
                    run_end(s, start as int, punct) == run_end(s, i as int, punct),
                decreases total - i,
            {
                i += 1;
            }
            assert(i == run_end(s, start as int, punct));
        }
        let ghost after_run = i as int;
        while i < total && is_whitespace(buf.char_at(i))
            invariant
                i <= total == s.len(),
                s == buf@.text,
                space == |c: char| text::whitespace(c),
                run_end(s, after_run, space) == run_end(s, i as int, space),
            decreases total - i,
        {
            i += 1;
        }
        assert(i == next_word(s, start as int));
        self.set_char_idx(buf, i);
    }

    /// Jumps back to the start of the run before the cursor.
    pub fn move_word_left(&mut self, buf: &Buffer)
        requires
            within(old(self)@, buf@.text),
        ensures
            final(self)@ == word_left_of(old(self)@, buf@.text),
    {
        let ghost s = buf@.text;
        let start: usize = self.char_idx(buf);
        if start == 0 {
            return;
        }
        let mut i: usize = start;
        let ghost space = |c: char| text::whitespace(c);
        while i > 0 && is_whitespace(buf.char_at(i - 1))
            invariant
                i <= start <= s.len(),
                s == buf@.text,
                space == |c: char| text::whitespace(c),
                run_start(s, start as int, space) == run_start(s, i as int, space),
            decreases i,
        {
            i -= 1;
        }
        assert(i == run_start(s, start as int, space));
        if i == 0 {
            self.set_char_idx(buf, 0);
            return;
        }
        let word: bool = is_word_char(buf.char_at(i - 1));
        let ghost run = |c: char| !text::whitespace(c) && word_char(c) == word;
        let ghost j = i as int;
        while i > 0
            invariant
                i <= j <= s.len(),
                s == buf@.text,
                run == |c: char| !text::whitespace(c) && word_char(c) == word,
                run_start(s, j, run) == run_start(s, i as int, run),
            ensures
                i <= j,
                i == run_start(s, j, run),
            decreases i,
        {
            let c = buf.char_at(i - 1);
            if is_whitespace(c) || is_word_char(c) != word {
                break;
            }
            i -= 1;
        }
        assert(i == previous_word(s, start as int));
        self.set_char_idx(buf, i);
    }

    fn set_char_idx(&mut self, buf: &Buffer, idx: usize)
        requires
            idx <= buf@.text.len(),
        ensures
            final(self)@ == at_position(old(self)@, buf@.text, idx as int),
    {
        let ghost s = buf@.text;
        let line: usize = buf.char_to_line(idx);
        proof {
            rope::lemma_line_of_position(s, line as int, idx as int);
        }
        let col: usize = idx - buf.line_to_char(line);
        let max_col: usize = buf.line_len_chars(line);
        self.cursor_line = line;
        self.cursor_col = smaller(col, max_col);
        self.sticky_col = self.cursor_col;
    }

    pub fn move_home(&mut self)
        ensures
            final(self)@ == moved(old(self)@, old(self)@.line, 0),
    {
        self.cursor_col = 0;
        self.sticky_col = 0;
    }

    pub fn move_end(&mut self, buf: &Buffer)
        requires
            0 <= old(self)@.line < rope::line_count(buf@.text),
        ensures
            final(self)@ == moved(
                old(self)@,
                old(self)@.line,
                rope::line_len(buf@.text, old(self)@.line) as int,
            ),
    {
        self.cursor_col = buf.line_len_chars(self.cursor_line);
        self.sticky_col = self.cursor_col;
    }

    pub fn page_up(&mut self, buf: &Buffer, viewport_rows: u16)
        requires
            0 <= old(self)@.line < rope::line_count(buf@.text),
        ensures
            final(self)@ == paged_up(old(self)@, buf@.text, viewport_rows),
    {
        let step: usize = if viewport_rows >= 1 {
            viewport_rows as usize
        } else {
            1
        };
        self.cursor_line = self.cursor_line.saturating_sub(step);
        self.top_line = self.top_line.saturating_sub(step);
        self.cursor_col = smaller(self.sticky_col, buf.line_len_chars(self.cursor_line));
    }

    pub fn page_down(&mut self, buf: &Buffer, viewport_rows: u16)
        ensures
            final(self)@ == paged_down(old(self)@, buf@.text, viewport_rows),
    {
        let step: usize = if viewport_rows >= 1 {
            viewport_rows as usize
        } else {
            1
        };
        let last_line: usize = buf.line_count() - 1;
        self.cursor_line = smaller(self.cursor_line.saturating_add(step), last_line);
        self.top_line = smaller(self.top_line.saturating_add(step), last_line);
        self.cursor_col = smaller(self.sticky_col, buf.line_len_chars(self.cursor_line));
    }

    /// Scrolls as little as it takes for the cursor's line to be visible.
    pub fn scroll_into_view(&mut self, viewport_rows: u16)
        ensures
            final(self)@ == (ViewModel {
                top: scrolled(old(self)@.top, old(self)@.line, page_step(viewport_rows)),
                ..old(self)@
            }),
    {
        let rows: usize = if viewport_rows >= 1 {
            viewport_rows as usize
        } else {
            1
        };
        if self.cursor_line < self.top_line {
            self.top_line = self.cursor_line;
        } else if self.cursor_line - self.top_line >= rows {
            self.top_line = self.cursor_line - (rows - 1);
        }
    }

    /// The position that the cursor stands at.
    pub fn char_idx(&self, buf: &Buffer) -> (r: usize)
        requires
            within(self@, buf@.text),
        ensures
            r == cursor(self@, buf@.text),
            r <= buf@.text.len(),
    {
        let total: usize = buf.len_chars();
        buf.line_to_char(self.cursor_line) + self.cursor_col
    }

    /// Whether the cursor stands within the text.
    pub fn in_bounds(&self, buf: &Buffer) -> (r: bool)
        ensures
            r == within(self@, buf@.text),
    {
        if self.cursor_line >= buf.line_count() {
            return false;
        }
        let total: usize = buf.len_chars();
        let start: usize = buf.line_to_char(self.cursor_line);
        proof {
            rope::lemma_line_start(buf@.text, self.cursor_line as int);
        }
        self.cursor_col <= total - start
    }

    /// Moves the cursor past `s`, which was put in where the cursor stood.
    pub fn after_insert(&mut self, buf: &Buffer, s: &str)
        requires
            0 <= old(self)@.line,
            old(self)@.line + buffer::newlines(s@) < rope::line_count(buf@.text),
            old(self)@.col + s@.len() <= usize::MAX,
        ensures
            final(self)@ == after_typing(old(self)@, buf@.text, s@),
    {
        let cs = to_chars(s);
        let count: usize = buf.line_count();
        let ghost v = self@;
        let mut i: usize = 0;
        assert(s@.take(0) =~= Seq::<char>::empty());
        while i < cs.len()
            invariant
                cs@ == s@,
                i <= s@.len(),
                count == rope::line_count(buf@.text),
                0 <= v.line,
                0 <= v.col,
                v.line + buffer::newlines(s@) < count,
                v.col + s@.len() <= usize::MAX,
                self@ == (ViewModel {
                    line: typed(v.line, v.col, s@.take(i as int)).0,
                    col: typed(v.line, v.col, s@.take(i as int)).1,
                    ..v
                }),
            decreases s@.len() - i,
        {
            proof {
                assert(s@.take(i + 1).drop_last() =~= s@.take(i as int));
                lemma_typed(v.line, v.col, s@.take(i as int));
                lemma_typed(v.line, v.col, s@.take(i + 1));
                lemma_newlines_prefix(s@, i + 1);
            }
            if cs[i] == '\n' {
                self.cursor_line += 1;
                self.cursor_col = 0;
            } else {
                self.cursor_col += 1;
            }
            i += 1;
        }
        assert(s@.take(i as int) =~= s@);
        proof {
            lemma_typed(v.line, v.col, s@);
        }
        self.sticky_col = self.cursor_col;
        let line_len: usize = buf.line_len_chars(self.cursor_line);
        if self.cursor_col > line_len {
            self.cursor_col = line_len;
        }
    }

    /// Moves the cursor back over the character that was deleted before it.
    pub fn after_delete_prev(&mut self, buf: &Buffer)
        requires
            old(self)@.col == 0 && old(self)@.line > 0 ==> old(self)@.line - 1 < rope::line_count(
                buf@.text,
            ),
        ensures
            final(self)@ == left_of(old(self)@, buf@.text),
    {
        if self.cursor_col > 0 {
            self.cursor_col -= 1;
        } else if self.cursor_line > 0 {
            self.cursor_line -= 1;
            self.cursor_col = buf.line_len_chars(self.cursor_line);
        }
        self.sticky_col = self.cursor_col;
    }

    /// Jumps to `(line, col)`, clamped to the text.
    pub fn goto(&mut self, buf: &Buffer, line: usize, col: usize)
        ensures
            final(self)@ == gone_to(old(self)@, buf@.text, line as int, col as int),
    {
        let last_line: usize = buf.line_count() - 1;
        self.cursor_line = smaller(line, last_line);
        self.cursor_col = smaller(col, buf.line_len_chars(self.cursor_line));
        self.sticky_col = self.cursor_col;
    }
}

fn smaller(a: usize, b: usize) -> (r: usize)
    ensures
        r == min(a as int, b as int),
{
    if a <= b {
        a
    } else {
        b
    }
}

proof fn lemma_newlines_prefix(s: Seq<char>, i: int)
    requires
        0 <= i <= s.len(),
    ensures
        buffer::newlines(s.take(i)) <= buffer::newlines(s),
    decreases s.len() - i,
{
    if i < s.len() {
        lemma_newlines_prefix(s, i + 1);
        assert(s.take(i + 1).drop_last() =~= s.take(i));
    } else {
        assert(s.take(i) =~= s);
    }
}

/// After scrolling, the cursor's line is among the visible ones.
pub proof fn law_scrolled_line_is_visible(top: int, line: int, rows: int)
    requires
        rows >= 1,
    ensures
        scrolled(top, line, rows) <= line < scrolled(top, line, rows) + rows,
{
}

/// Scrolling again changes nothing.
pub proof fn law_scrolling_is_idempotent(top: int, line: int, rows: int)
    requires
        rows >= 1,
    ensures
        scrolled(scrolled(top, line, rows), line, rows) == scrolled(top, line, rows),
{
}

/// Every movement keeps the cursor within the text.
pub proof fn law_movement_stays_in_text(v: ViewModel, s: Seq<char>, rows: u16, line: int, col: int)
    requires
        in_text(v, s),
        v.sticky >= 0,
        line >= 0,
        col >= 0,
    ensures
        in_text(left_of(v, s), s),
        in_text(right_of(v, s), s),
        in_text(above(v, s), s),
        in_text(below(v, s), s),
        in_text(moved(v, v.line, 0), s),
        in_text(moved(v, v.line, rope::line_len(s, v.line) as int), s),
        in_text(paged_up(v, s, rows), s),
        in_text(paged_down(v, s, rows), s),
        in_text(gone_to(v, s, line, col), s),
        in_text(word_right_of(v, s), s),
        in_text(word_left_of(v, s), s),
{
    lemma_cursor_bound(v, s);
    let i = cursor(v, s);
    if i < s.len() {
        let j = if word_char(s[i]) {
            run_end(s, i, |c: char| word_char(c))
        } else {
            run_end(s, i, |c: char| punctuation(c))
        };
        lemma_run_end(s, i, |c: char| word_char(c));
        lemma_run_end(s, i, |c: char| punctuation(c));
        lemma_run_end(s, j, |c: char| text::whitespace(c));
        lemma_at_position_in_text(v, s, next_word(s, i));
    }
    if i > 0 {
        let j = run_start(s, i, |c: char| text::whitespace(c));
        lemma_run_start(s, i, |c: char| text::whitespace(c));
        if j > 0 {
            let word = word_char(s[j - 1]);
            lemma_run_start(s, j, |c: char| !text::whitespace(c) && word_char(c) == word);
        }
        lemma_at_position_in_text(v, s, previous_word(s, i));
    }
}

proof fn lemma_run_start(s: Seq<char>, i: int, p: spec_fn(char) -> bool)
    requires
        0 <= i <= s.len(),
    ensures
        0 <= run_start(s, i, p) <= i,
    decreases i,
{
    if i > 0 && p(s[i - 1]) {
        lemma_run_start(s, i - 1, p);
    }
}

pub proof fn lemma_cursor_bound(v: ViewModel, s: Seq<char>)
    requires
        in_text(v, s),
    ensures
        0 <= cursor(v, s) <= s.len(),
{
    rope::lemma_line_start(s, v.line);
    rope::lemma_line_start(s, v.line + 1);
    rope::lemma_line_start_monotone(s, v.line, v.line + 1);
}

proof fn lemma_at_position_in_text(v: ViewModel, s: Seq<char>, i: int)
    requires
        0 <= i <= s.len(),
    ensures
        in_text(at_position(v, s, i), s),
{
    rope::lemma_line_of_monotone(s, i, s.len() as int);
    rope::lemma_line_of_position(s, rope::line_of(s, i) as int, i);
}

/// A cursor in the text is within it.
pub proof fn lemma_in_text_is_within(v: ViewModel, s: Seq<char>)
    requires
        in_text(v, s),
    ensures
        within(v, s),
{
    lemma_cursor_bound(v, s);
}

/// Every movement keeps the cursor within the text, wherever in it the cursor
/// stood.
pub proof fn law_movement_stays_within(v: ViewModel, s: Seq<char>, rows: u16, line: int, col: int)
    requires
        within(v, s),
        v.sticky >= 0,
        line >= 0,
        col >= 0,
    ensures
        within(left_of(v, s), s),
        within(right_of(v, s), s),
        within(above(v, s), s),
        within(below(v, s), s),
        within(moved(v, v.line, 0), s),
        within(moved(v, v.line, rope::line_len(s, v.line) as int), s),
        within(paged_up(v, s, rows), s),
        within(paged_down(v, s, rows), s),
        within(gone_to(v, s, line, col), s),
        within(word_right_of(v, s), s),
        within(word_left_of(v, s), s),
{
    rope::lemma_line_start(s, v.line);
    let home = moved(v, v.line, 0);
    law_movement_stays_in_text(home, s, rows, line, col);
    lemma_in_text_is_within(home, s);
    let end = moved(v, v.line, rope::line_len(s, v.line) as int);
    lemma_in_text_is_within(end, s);
    if v.line > 0 {
        lemma_in_text_is_within(moved(v, v.line - 1, rope::line_len(s, v.line - 1) as int), s);
        lemma_in_text_is_within(on_line(v, s, v.line - 1), s);
    }
    lemma_in_text_is_within(moved(v, 0, 0), s);
    if v.col < rope::line_len(s, v.line) {
        lemma_in_text_is_within(moved(v, v.line, v.col + 1), s);
    }
    if v.line + 1 < rope::line_count(s) {
        lemma_in_text_is_within(moved(v, v.line + 1, 0), s);
        lemma_in_text_is_within(on_line(v, s, v.line + 1), s);
    }
    lemma_in_text_is_within(paged_up(v, s, rows), s);
    lemma_in_text_is_within(paged_down(v, s, rows), s);
    lemma_in_text_is_within(gone_to(v, s, line, col), s);
    let i = cursor(v, s);
    if 0 <= i < s.len() {
        let j = if word_char(s[i]) {
            run_end(s, i, |c: char| word_char(c))
        } else {
            run_end(s, i, |c: char| punctuation(c))
        };
        lemma_run_end(s, i, |c: char| word_char(c));
        lemma_run_end(s, i, |c: char| punctuation(c));
        lemma_run_end(s, j, |c: char| text::whitespace(c));
        lemma_at_position_in_text(v, s, next_word(s, i));
        lemma_in_text_is_within(at_position(v, s, next_word(s, i)), s);
    }
    if i > 0 {
        let j = run_start(s, i, |c: char| text::whitespace(c));
        lemma_run_start(s, i, |c: char| text::whitespace(c));
        if j > 0 {
            let word = word_char(s[j - 1]);
            lemma_run_start(s, j, |c: char| !text::whitespace(c) && word_char(c) == word);
        }
        lemma_at_position_in_text(v, s, previous_word(s, i));
        lemma_in_text_is_within(at_position(v, s, previous_word(s, i)), s);
    }
}

/// Texts that agree before position `k` have the same lines before it.
proof fn lemma_same_lines(s: Seq<char>, t: Seq<char>, k: int, i: int)
    requires
        0 <= i < k <= s.len(),
        k <= t.len(),
        forall|j: int| 0 <= j < k ==> s[j] == t[j],
    ensures
        rope::line_of(s, i) == rope::line_of(t, i),
    decreases i,
{
    if i > 0 {
        lemma_same_lines(s, t, k, i - 1);
    }
}

/// A line that starts before position `k` starts at the same place in texts that
/// agree before `k`.
proof fn lemma_same_start(s: Seq<char>, t: Seq<char>, k: int, line: int)
    requires
        0 <= line < rope::line_count(s),
        rope::line_start(s, line) < k <= s.len(),
        k <= t.len(),
        forall|j: int| 0 <= j < k ==> s[j] == t[j],
    ensures
        rope::line_start(t, line) == rope::line_start(s, line),
        line < rope::line_count(t),
{
    let q = rope::line_start(s, line);
    rope::lemma_line_start(s, line);
    rope::lemma_line_start(t, line);
    lemma_same_lines(s, t, k, q);
    rope::lemma_line_of_monotone(t, q, t.len() as int);
    let z = rope::line_start(t, line);
    if z < q {
        lemma_same_lines(s, t, k, z);
        assert(rope::line_of(s, z) < line);
    }
    if q < z {
        assert(rope::line_of(t, q) < line);
    }
}

/// The text after a character was put in at the cursor.
pub open spec fn text_with(v: ViewModel, s: Seq<char>, c: char) -> Seq<char> {
    buffer::inserted(s, cursor(v, s), seq![c])
}

/// The line that a typed character leaves the cursor on is there. Only a line
/// feed typed behind a carriage return, which makes one line break of two
/// characters, can leave it without.
pub open spec fn typing_fits(v: ViewModel, s: Seq<char>, c: char) -> bool {
    c == '\n' ==> v.line + 1 < rope::line_count(text_with(v, s, c))
}

/// Typing a character keeps the cursor within the text.
pub proof fn law_typing_stays_within(v: ViewModel, s: Seq<char>, c: char)
    requires
        within(v, s),
        typing_fits(v, s, c),
    ensures
        v.line + buffer::newlines(seq![c]) < rope::line_count(text_with(v, s, c)),
        within(after_typing(v, text_with(v, s, c), seq![c]), text_with(v, s, c)),
{
    let t = text_with(v, s, c);
    let p = cursor(v, s);
    let q = rope::line_start(s, v.line);
    rope::lemma_line_start(s, v.line);
    assert(forall|j: int| 0 <= j < p ==> s[j] == t[j]);
    assert(t.len() == s.len() + 1);
    assert(seq![c].drop_last() =~= Seq::<char>::empty());
    reveal_with_fuel(buffer::newlines, 2);
    reveal_with_fuel(typed, 2);
    if c != '\n' {
        if q < p {
            lemma_same_start(s, t, p, v.line);
        } else if q > 0 {
            lemma_same_lines(s, t, p, q - 1);
            assert(rope::line_of(s, q - 1) < v.line);
            assert(rope::starts_line(s, q));
            assert(t[q] == c && t[q - 1] == s[q - 1]);
            assert(rope::starts_line(t, q));
            assert(rope::line_of(t, q) == v.line);
            rope::lemma_line_of_monotone(t, q, t.len() as int);
        }
    }
    let after = after_typing(v, t, seq![c]);
    assert(in_text(after, t));
    lemma_in_text_is_within(after, t);
}

/// Deleting the character before the cursor keeps the cursor within the text.
pub proof fn law_delete_prev_stays_within(v: ViewModel, s: Seq<char>)
    requires
        within(v, s),
        cursor(v, s) > 0,
    ensures
        within(
            left_of(v, buffer::removed(s, cursor(v, s) - 1, cursor(v, s))),
            buffer::removed(s, cursor(v, s) - 1, cursor(v, s)),
        ),
        v.col == 0 && v.line > 0 ==> v.line - 1 < rope::line_count(
            buffer::removed(s, cursor(v, s) - 1, cursor(v, s)),
        ),
{
    let p = cursor(v, s);
    let t = buffer::removed(s, p - 1, p);
    let q = rope::line_start(s, v.line);
    rope::lemma_line_start(s, v.line);
    assert(t.len() == s.len() - 1);
    assert(forall|j: int| 0 <= j < p - 1 ==> s[j] == t[j]);
    assert(forall|j: int| p - 1 <= j < t.len() ==> t[j] == s[j + 1]);
    if v.col > 0 {
        if q < p - 1 {
            lemma_same_start(s, t, p - 1, v.line);
        } else {
            lemma_start_after_cut(s, t, q, v.line);
        }
    } else if v.line > 0 {
        assert(q == p && q > 0);
        assert(rope::line_of(s, q - 1) < v.line);
        let z = rope::line_start(s, v.line - 1);
        rope::lemma_line_start(s, v.line - 1);
        rope::lemma_line_start_monotone(s, v.line - 1, v.line);
        assert(z < q) by {
            if z == q {
                assert(rope::line_of(s, z) == v.line - 1);
            }
        }
        if z < q - 1 {
            lemma_same_start(s, t, q - 1, v.line - 1);
        } else {
            lemma_start_after_cut(s, t, q - 1, v.line - 1);
        }
        let l = v.line - 1;
        lemma_in_text_is_within(moved(v, l, rope::line_len(t, l) as int), t);
    }
}

/// A line whose first character, at `q`, is cut is still there, and its start
/// is at most one further.
proof fn lemma_start_after_cut(s: Seq<char>, t: Seq<char>, q: int, line: int)
    requires
        0 <= line < rope::line_count(s),
        0 <= q < s.len(),
        rope::line_start(s, line) == q,
        t.len() == s.len() - 1,
        forall|j: int| 0 <= j < q ==> s[j] == t[j],
        forall|j: int| q <= j < t.len() ==> t[j] == s[j + 1],
    ensures
        line < rope::line_count(t),
        rope::line_start(t, line) <= t.len(),
{
    rope::lemma_line_start(s, line);
    rope::lemma_line_start(t, line);
    if q > 0 {
        lemma_same_lines(s, t, q, q - 1);
        assert(rope::line_of(s, q - 1) < line);
        assert(rope::starts_line(s, q));
        if rope::starts_line(t, q) {
            assert(rope::line_of(t, q) == line);
            rope::lemma_line_of_monotone(t, q, t.len() as int);
        } else {
            assert(q < t.len() && t[q] == '\n');
            assert(rope::starts_line(t, q + 1));
            assert(rope::line_of(t, q + 1) == rope::line_of(t, q) + 1);
            rope::lemma_line_of_monotone(t, q + 1, t.len() as int);
        }
    }
}

/// Deleting the character at the cursor keeps the cursor within the text.
pub proof fn law_delete_next_stays_within(v: ViewModel, s: Seq<char>)
    requires
        within(v, s),
        cursor(v, s) < s.len(),
    ensures
        within(v, buffer::removed(s, cursor(v, s), cursor(v, s) + 1)),
{
    let p = cursor(v, s);
    let t = buffer::removed(s, p, p + 1);
    let q = rope::line_start(s, v.line);
    rope::lemma_line_start(s, v.line);
    assert(t.len() == s.len() - 1);
    assert(forall|j: int| 0 <= j < p ==> s[j] == t[j]);
    assert(forall|j: int| p <= j < t.len() ==> t[j] == s[j + 1]);
    if q < p {
        lemma_same_start(s, t, p, v.line);
    } else {
        lemma_start_after_cut(s, t, q, v.line);
    }
}

} // verus!
