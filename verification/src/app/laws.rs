//! What the keys do to the text and the cursor.

use vstd::prelude::*;

use crate::action;
use crate::action::Action;
use crate::app;
use crate::app::routing;
use crate::app::{AppModel, Env, ErrandModel, Mode};
use crate::buffer;
use crate::protocol::laws;
use crate::rope;
use crate::runtime;
use crate::runtime::screen;
use crate::runtime::screen::KeyEdit;
use crate::text;
use crate::view;

verus! {

/// No prompt, dialog, overlay, tree or pending key takes the keys.
pub open spec fn keys_reach_the_text(m: AppModel) -> bool {
    &&& m.chord is None
    &&& m.prompt is None
    &&& !m.keys_help
    &&& m.open_file is None
    &&& m.type_search is None
    &&& m.text_search is None
    &&& m.history is None
    &&& m.diff is None
    &&& !m.tree.focused
}

/// The place in the text that the cursor stands at.
pub open spec fn place(m: AppModel) -> int {
    rope::line_start(m.buffer.text, m.view.line) + m.view.col
}

/// The cursor is on a line that is there, and no further than the end of the text.
pub open spec fn placed(m: AppModel) -> bool {
    &&& 0 <= m.view.line < rope::line_count(m.buffer.text)
    &&& 0 <= m.view.col
    &&& place(m) <= m.buffer.text.len()
    &&& m.buffer.text.len() <= usize::MAX
}

/// An action makes `t` of the text: there is a new version of the buffer, unsaved, the
/// history has one more entry, and the server of its language, if one runs, is told of the
/// new text.
#[verifier::opaque]
pub open spec fn makes(m: AppModel, a: Action, env: Env, t: Seq<char>, intent: Seq<char>) -> bool {
    let (r, errand) = routing::applied(m, a, env);
    &&& errand is None
    &&& r.buffer.text == t
    &&& r.buffer.dirty
    &&& r.buffer.version != m.buffer.version
    &&& r.buffer.path == m.buffer.path
    &&& r.last_edit == Some(env.now)
    &&& r.tx.history.len() == m.tx.history.len() + 1
    &&& r.tx.history.drop_last() == m.tx.history
    &&& r.tx.history.last().intent == intent
    &&& r.tx.history.last().at == m.tx.now
    &&& (m.language matches Some(l) && m.servers.contains(l) && m.uri is Some) ==> r.outbox
        == m.outbox.push(
        runtime::NoticeModel::Change {
            language: m.language->Some_0,
            uri: m.uri->Some_0,
            version: m.lsp_version + 1,
            text: t,
        },
    )
}

/// The text, its version and its history are what they were.
pub open spec fn text_left(m: AppModel, r: AppModel) -> bool {
    &&& r.buffer.text == m.buffer.text
    &&& r.buffer.dirty == m.buffer.dirty
    &&& r.buffer.version == m.buffer.version
    &&& r.buffer.path == m.buffer.path
    &&& r.last_edit == m.last_edit
    &&& r.tx.history == m.tx.history
    &&& r.outbox == m.outbox
}

/// An action leaves the text alone, and asks for nothing.
#[verifier::opaque]
pub open spec fn leaves(m: AppModel, a: Action, env: Env) -> bool {
    text_left(m, routing::applied(m, a, env).0) && routing::applied(m, a, env).1 is None
}

proof fn lemma_edit(m: AppModel, a: Action, env: Env)
    requires
        keys_reach_the_text(m),
        m.mode == Mode::Edit,
        app::edits(a),
    ensures
        ({
            let e = app::edited(AppModel { quit_pending: false, ..m }, a, env);
            let r = routing::applied(m, a, env);
            &&& r.1 is None
            &&& r.0.buffer == (buffer::BufferModel { edits: r.0.buffer.edits, ..e.buffer })
            &&& r.0.view == (view::ViewModel { top: r.0.view.top, ..e.view })
            &&& r.0.tx == e.tx
            &&& r.0.outbox == e.outbox
            &&& r.0.last_edit == e.last_edit
        }),
{
}

proof fn lemma_makes(m: AppModel, a: Action, env: Env, t: Seq<char>, intent: Seq<char>)
    requires
        keys_reach_the_text(m),
        m.mode == Mode::Edit,
        app::edits(a),
        screen::after_key_edit(m.buffer, app::edit_of(m, a)).text == t,
        screen::after_key_edit(m.buffer, app::edit_of(m, a)).dirty,
        screen::after_key_edit(m.buffer, app::edit_of(m, a)).path == m.buffer.path,
        screen::after_key_edit(m.buffer, app::edit_of(m, a)).version != m.buffer.version,
        action::intent_of(a) == Some(intent),
    ensures
        makes(m, a, env, t, intent),
{
    reveal(makes);
    lemma_edit(m, a, env);
    let n = AppModel { quit_pending: false, ..m };
    assert(app::edit_of(n, a) == app::edit_of(m, a));
    let r = routing::applied(m, a, env).0;
    assert(r.tx.history.drop_last() =~= m.tx.history);
}

proof fn lemma_leaves(m: AppModel, a: Action, env: Env)
    requires
        keys_reach_the_text(m),
        m.mode == Mode::Edit,
        app::edits(a),
        app::edit_of(m, a) == KeyEdit::Nothing,
    ensures
        leaves(m, a, env),
{
    reveal(leaves);
    lemma_edit(m, a, env);
    let n = AppModel { quit_pending: false, ..m };
    assert(app::edit_of(n, a) == app::edit_of(m, a));
}

/// In edit mode, a character is typed at the cursor, and the keys that delete take away the
/// character before the cursor, the one at it, or what stands on its line; nothing else of
/// the text changes.
pub proof fn law_editing_keys(m: AppModel, c: char, env: Env)
    requires
        keys_reach_the_text(m),
        m.mode == Mode::Edit,
        placed(m),
    ensures
        ({
            let s = m.buffer.text;
            let i = place(m);
            let start = rope::line_start(s, m.view.line);
            let end = rope::line_end(s, m.view.line);
            &&& makes(
                m,
                Action::Insert(c),
                env,
                s.take(i) + seq![c] + s.skip(i),
                "insert "@ + action::char_name(c),
            )
            &&& i > 0 ==> makes(
                m,
                Action::DeletePrev,
                env,
                s.take(i - 1) + s.skip(i),
                "delete backward"@,
            )
            &&& i == 0 ==> leaves(m, Action::DeletePrev, env)
            &&& i < s.len() ==> makes(
                m,
                Action::DeleteNext,
                env,
                s.take(i) + s.skip(i + 1),
                "delete forward"@,
            )
            &&& i == s.len() ==> leaves(m, Action::DeleteNext, env)
            &&& start < end ==> makes(
                m,
                Action::ClearLine,
                env,
                s.take(start) + s.skip(end),
                "clear line"@,
            )
            &&& start == end ==> leaves(m, Action::ClearLine, env)
        }),
{
    let s = m.buffer.text;
    let i = place(m);
    let line = m.view.line;
    let start = rope::line_start(s, line);
    let end = rope::line_end(s, line);
    rope::lemma_line_start(s, line);
    rope::lemma_line_start(s, line + 1);
    rope::lemma_line_end(s, line);
    rope::lemma_line_start_monotone(s, line, line + 1);
    lemma_makes(
        m,
        Action::Insert(c),
        env,
        s.take(i) + seq![c] + s.skip(i),
        "insert "@ + action::char_name(c),
    );
    if i > 0 {
        lemma_makes(
            m,
            Action::DeletePrev,
            env,
            s.take(i - 1) + s.skip(i),
            "delete backward"@,
        );
    } else {
        lemma_leaves(m, Action::DeletePrev, env);
    }
    if i < s.len() {
        lemma_makes(m, Action::DeleteNext, env, s.take(i) + s.skip(i + 1), "delete forward"@);
    } else {
        lemma_leaves(m, Action::DeleteNext, env);
    }
    if start < end {
        lemma_makes(m, Action::ClearLine, env, s.take(start) + s.skip(end), "clear line"@);
    } else {
        lemma_leaves(m, Action::ClearLine, env);
    }
}

/// Deleting forward leaves the cursor where it is. Deleting backward takes it one column to
/// the left, or from the start of a line to the end of the one before. Clearing a line takes
/// it to the start of the line.
pub proof fn law_cursor_after_deleting(m: AppModel, env: Env)
    requires
        keys_reach_the_text(m),
        m.mode == Mode::Edit,
        placed(m),
    ensures
        ({
            let next = routing::applied(m, Action::DeleteNext, env).0;
            let before = routing::applied(m, Action::DeletePrev, env).0;
            let cleared = routing::applied(m, Action::ClearLine, env).0;
            let t = before.buffer.text;
            &&& next.view.line == m.view.line && next.view.col == m.view.col
            &&& m.view.col > 0 ==> before.view.line == m.view.line && before.view.col == m.view.col
                - 1
            &&& m.view.col == 0 && m.view.line > 0 && place(m) > 0 ==> before.view.line
                == m.view.line - 1 && place(before) == rope::line_end(t, m.view.line - 1)
            &&& place(m) == 0 ==> before.view.line == m.view.line && before.view.col == m.view.col
            &&& m.view.line < rope::line_count(cleared.buffer.text) ==> cleared.view.line
                == m.view.line && cleared.view.col == 0
        }),
{
    rope::lemma_line_start(m.buffer.text, m.view.line);
    lemma_edit(m, Action::DeletePrev, env);
    lemma_edit(m, Action::DeleteNext, env);
    lemma_edit(m, Action::ClearLine, env);
    let before = routing::applied(m, Action::DeletePrev, env).0;
    if m.view.line > 0 {
        rope::lemma_line_end(before.buffer.text, m.view.line - 1);
    }
}

/// A character that is typed stands right before the cursor, on the same line, or on the
/// next one after a line feed. The cursor has to be on its line, and not behind a carriage
/// return, which what is typed can part from the line feed that follows it.
pub proof fn law_cursor_after_typing(m: AppModel, c: char, env: Env)
    requires
        keys_reach_the_text(m),
        m.mode == Mode::Edit,
        placed(m),
        rope::line_of(m.buffer.text, place(m)) == m.view.line,
        place(m) > 0 ==> m.buffer.text[place(m) - 1] != '\r',
        c == '\n' || !rope::line_break(c),
    ensures
        ({
            let r = routing::applied(m, Action::Insert(c), env).0;
            &&& place(r) == place(m) + 1
            &&& r.buffer.text[place(r) - 1] == c
            &&& r.view.line == (if c == '\n' {
                m.view.line + 1
            } else {
                m.view.line
            })
        }),
{
    let s = m.buffer.text;
    let i = place(m);
    let line = m.view.line;
    lemma_edit(m, Action::Insert(c), env);
    rope::lemma_line_start(s, m.view.line);
    let r = routing::applied(m, Action::Insert(c), env).0;
    let t = r.buffer.text;
    assert(t == s.take(i) + seq![c] + s.skip(i));
    rope::lemma_line_start(s, line);
    let q = rope::line_start(s, line);
    assert forall|j: int| 0 <= j < i implies s[j] == t[j] by {}
    assert(t[i] == c);
    laws::lemma_lines_before(s, t, i, i);
    laws::lemma_lines_before(s, t, i, q);
    rope::lemma_line_of_monotone(t, i, t.len() as int);
    rope::lemma_line_of_monotone(t, i + 1, t.len() as int);
    rope::lemma_line_start(t, line);
    rope::lemma_line_start(t, line + 1);
    let p = rope::line_start(t, line);
    assert(p == q) by {
        assert(rope::line_of(t, q) == line);
        if p < q {
            laws::lemma_lines_before(s, t, i, p);
            assert(rope::line_of(s, p) < line);
        }
        if q < p {
            assert(rope::line_of(t, q) < line);
        }
    }
    assert(seq![c].drop_last() =~= Seq::<char>::empty());
    reveal_with_fuel(view::typed, 2);
    if c == '\n' {
        assert(rope::starts_line(t, i + 1));
        assert(rope::line_of(t, i + 1) == line + 1);
        let z = rope::line_start(t, line + 1);
        if z < i + 1 {
            rope::lemma_line_of_monotone(t, z, i);
        }
        if i + 1 < z {
            assert(rope::line_of(t, i + 1) < line + 1);
        }
    } else {
        assert(!rope::starts_line(t, i + 1));
        assert(rope::line_of(t, i + 1) == line);
        rope::lemma_line_end(t, line);
        let z = rope::line_start(t, line + 1);
        assert(z >= i + 1) by {
            if z < i + 1 {
                rope::lemma_line_of_monotone(t, z, i + 1);
            }
        }
        if z == i + 1 && z < t.len() {
            assert(rope::line_of(t, z) == line + 1) by {
                if line + 1 >= rope::line_count(t) {
                    assert(z == t.len());
                }
            }
        }
        assert(rope::line_end(t, line) >= i + 1);
    }
}

/// What is typed and then deleted backward leaves the text as it was.
pub proof fn law_deleting_undoes_typing(m: AppModel, c: char, env: Env)
    requires
        keys_reach_the_text(m),
        m.mode == Mode::Edit,
        placed(m),
        m.buffer.text.len() < usize::MAX,
        rope::line_of(m.buffer.text, place(m)) == m.view.line,
        place(m) > 0 ==> m.buffer.text[place(m) - 1] != '\r',
        c == '\n' || !rope::line_break(c),
    ensures
        routing::applied(
            routing::applied(m, Action::Insert(c), env).0,
            Action::DeletePrev,
            env,
        ).0.buffer.text == m.buffer.text,
{
    let s = m.buffer.text;
    let i = place(m);
    let r = routing::applied(m, Action::Insert(c), env).0;
    let t = r.buffer.text;
    lemma_typed_text(m, c, env);
    law_cursor_after_typing(m, c, env);
    lemma_deleted_text(r, env);
    assert(t.take(i) + t.skip(i + 1) =~= s);
}

proof fn lemma_typed_text(m: AppModel, c: char, env: Env)
    requires
        keys_reach_the_text(m),
        m.mode == Mode::Edit,
        placed(m),
    ensures
        ({
            let s = m.buffer.text;
            let r = routing::applied(m, Action::Insert(c), env).0;
            &&& r.buffer.text == s.take(place(m)) + seq![c] + s.skip(place(m))
            &&& keys_reach_the_text(r)
            &&& r.mode == m.mode
        }),
{
    rope::lemma_line_start(m.buffer.text, m.view.line);
    lemma_edit(m, Action::Insert(c), env);
}

proof fn lemma_deleted_text(m: AppModel, env: Env)
    requires
        keys_reach_the_text(m),
        m.mode == Mode::Edit,
        0 < place(m) <= m.buffer.text.len() <= usize::MAX,
    ensures
        routing::applied(m, Action::DeletePrev, env).0.buffer.text == m.buffer.text.take(
            place(m) - 1,
        ) + m.buffer.text.skip(place(m)),
{
    lemma_edit(m, Action::DeletePrev, env);
}

/// In view mode nothing is typed and nothing deleted, and the status says why.
pub proof fn law_view_mode_says_so(m: AppModel, a: Action, env: Env)
    requires
        keys_reach_the_text(m),
        m.mode == Mode::View,
        a is Insert || a is DeletePrev || a is DeleteNext || a is ClearLine || a is Rename,
    ensures
        text_left(m, routing::applied(m, a, env).0),
        routing::applied(m, a, env).0.view == m.view,
        routing::applied(m, a, env).0.status == "View mode — Ctrl-V to edit"@,
        routing::applied(m, a, env).1 is None,
{
}

// -------------------------------------------------------------------- movement

/// The cursor is at a line and a column, with nothing changed but where it is; its line is
/// among the rows on the screen.
#[verifier::opaque]
pub open spec fn cursor_moved(m: AppModel, a: Action, env: Env, line: int, col: int) -> bool {
    let r = routing::applied(m, a, env);
    let rows = if env.rows > 1 {
        env.rows - 1
    } else {
        1
    };
    &&& r.0.view.line == line
    &&& r.0.view.col == col
    &&& r.0.view.top <= line < r.0.view.top + rows
    &&& r.1 is None
    &&& text_left(m, r.0)
}

/// The actions that move the cursor.
pub open spec fn moves(a: Action) -> bool {
    ||| a is MoveLeft
    ||| a is MoveRight
    ||| a is MoveUp
    ||| a is MoveDown
    ||| a is MoveWordLeft
    ||| a is MoveWordRight
    ||| a is MoveHome
    ||| a is MoveEnd
    ||| a is PageUp
    ||| a is PageDown
}

proof fn lemma_moved_settles(m: AppModel, a: Action, env: Env)
    requires
        keys_reach_the_text(m),
        moves(a),
    ensures
        routing::applied(m, a, env) == (
            app::settled(
                AppModel {
                    quit_pending: false,
                    view: app::moved(m.view, m.buffer.text, a, env.rows),
                    ..m
                },
                env,
            ),
            None::<ErrandModel>,
        ),
{
    let n = AppModel { quit_pending: false, ..m };
    assert(routing::applied(m, a, env) == routing::routed(m, a, env));
    assert(routing::routed(m, a, env) == routing::passed_down(n, a, env));
    assert(routing::passed_down(n, a, env) == app::acted(n, a, env));
}

proof fn lemma_settled_shows(m: AppModel, v: view::ViewModel, env: Env)
    ensures
        ({
            let r = app::settled(AppModel { quit_pending: false, view: v, ..m }, env);
            let rows = if env.rows > 1 {
                env.rows - 1
            } else {
                1
            };
            &&& r.view.line == v.line && r.view.col == v.col && r.view.sticky == v.sticky
            &&& r.view.top <= v.line < r.view.top + rows
            &&& text_left(m, r)
        }),
{
}

proof fn lemma_moved(m: AppModel, a: Action, env: Env)
    requires
        keys_reach_the_text(m),
        moves(a),
    ensures
        ({
            let v = app::moved(m.view, m.buffer.text, a, env.rows);
            let r = routing::applied(m, a, env).0.view;
            &&& cursor_moved(m, a, env, v.line, v.col)
            &&& r.line == v.line && r.col == v.col && r.sticky == v.sticky
        }),
{
    let v = app::moved(m.view, m.buffer.text, a, env.rows);
    lemma_moved_settles(m, a, env);
    lemma_settled_shows(m, v, env);
    lemma_cursor_moved(m, a, env, v);
}

proof fn lemma_cursor_moved(m: AppModel, a: Action, env: Env, v: view::ViewModel)
    requires
        routing::applied(m, a, env).1 is None,
        ({
            let r = routing::applied(m, a, env).0;
            let rows = if env.rows > 1 {
                env.rows - 1
            } else {
                1
            };
            &&& r.view.line == v.line && r.view.col == v.col
            &&& r.view.top <= v.line < r.view.top + rows
            &&& text_left(m, r)
        }),
    ensures
        cursor_moved(m, a, env, v.line, v.col),
{
    reveal(cursor_moved);
}

/// The arrow keys, Home and End: one column, one line, or to either end of the line.
pub proof fn law_moving_keys(m: AppModel, env: Env)
    requires
        keys_reach_the_text(m),
        placed(m),
        m.view.top >= 0,
        m.view.sticky >= 0,
    ensures
        ({
            let s = m.buffer.text;
            let (line, col) = (m.view.line, m.view.col);
            let last = rope::line_count(s) - 1;
            let len = rope::line_end(s, line) - rope::line_start(s, line);
            let above = rope::line_end(s, line - 1) - rope::line_start(s, line - 1);
            let below = rope::line_end(s, line + 1) - rope::line_start(s, line + 1);
            &&& col > 0 ==> cursor_moved(m, Action::MoveLeft, env, line, col - 1)
            &&& col == 0 && line > 0 ==> cursor_moved(m, Action::MoveLeft, env, line - 1, above)
            &&& col == 0 && line == 0 ==> cursor_moved(m, Action::MoveLeft, env, 0, 0)
            &&& col < len ==> cursor_moved(m, Action::MoveRight, env, line, col + 1)
            &&& col >= len && line < last ==> cursor_moved(m, Action::MoveRight, env, line + 1, 0)
            &&& col >= len && line == last ==> cursor_moved(m, Action::MoveRight, env, line, col)
            &&& line > 0 ==> cursor_moved(
                m,
                Action::MoveUp,
                env,
                line - 1,
                if m.view.sticky <= above {
                    m.view.sticky
                } else {
                    above
                },
            )
            &&& line == 0 ==> cursor_moved(m, Action::MoveUp, env, 0, 0)
            &&& line < last ==> cursor_moved(
                m,
                Action::MoveDown,
                env,
                line + 1,
                if m.view.sticky <= below {
                    m.view.sticky
                } else {
                    below
                },
            )
            &&& line == last ==> cursor_moved(m, Action::MoveDown, env, line, len)
            &&& cursor_moved(m, Action::MoveHome, env, line, 0)
            &&& cursor_moved(m, Action::MoveEnd, env, line, len)
        }),
{
    let s = m.buffer.text;
    rope::lemma_line_end(s, m.view.line);
    rope::lemma_line_end(s, m.view.line + 1);
    if m.view.line > 0 {
        rope::lemma_line_end(s, m.view.line - 1);
    }
    lemma_moved_at(m, Action::MoveLeft, env);
    lemma_moved_at(m, Action::MoveRight, env);
    lemma_moved_at(m, Action::MoveUp, env);
    lemma_moved_at(m, Action::MoveDown, env);
    lemma_moved_at(m, Action::MoveHome, env);
    lemma_moved_at(m, Action::MoveEnd, env);
}

proof fn lemma_moved_at(m: AppModel, a: Action, env: Env)
    requires
        keys_reach_the_text(m),
        moves(a),
    ensures
        ({
            let v = app::moved(m.view, m.buffer.text, a, env.rows);
            cursor_moved(m, a, env, v.line, v.col)
        }),
{
    lemma_moved(m, a, env);
}

/// The cursor stays on the column that it was led to when it is moved up and down, also
/// past shorter lines.
pub proof fn law_vertical_moves_keep_the_column(m: AppModel, env: Env)
    requires
        keys_reach_the_text(m),
        placed(m),
        m.view.top >= 0,
        m.view.sticky == m.view.col,
        place(m) <= rope::line_end(m.buffer.text, m.view.line),
    ensures
        ({
            let down = routing::applied(m, Action::MoveDown, env).0;
            let up = routing::applied(m, Action::MoveUp, env).0;
            let back = routing::applied(down, Action::MoveUp, env).0;
            let forth = routing::applied(up, Action::MoveDown, env).0;
            &&& m.view.line + 1 < rope::line_count(m.buffer.text) ==> back.view.line
                == m.view.line && back.view.col == m.view.col
            &&& m.view.line > 0 ==> forth.view.line == m.view.line && forth.view.col == m.view.col
        }),
{
    rope::lemma_line_end(m.buffer.text, m.view.line);
}

/// The page keys move by as many lines as the screen shows, and stop at either end.
pub proof fn law_page_keys(m: AppModel, env: Env)
    requires
        keys_reach_the_text(m),
        placed(m),
        m.view.top >= 0,
        m.view.sticky >= 0,
    ensures
        ({
            let s = m.buffer.text;
            let rows = if env.rows > 1 {
                env.rows - 1
            } else {
                1
            };
            let last = rope::line_count(s) - 1;
            let up = if m.view.line < rows {
                0
            } else {
                m.view.line - rows
            };
            let down = if m.view.line + rows > last {
                last
            } else {
                m.view.line + rows
            };
            let (a, b) = (
                rope::line_end(s, up) - rope::line_start(s, up),
                rope::line_end(s, down) - rope::line_start(s, down),
            );
            &&& cursor_moved(
                m,
                Action::PageUp,
                env,
                up,
                if m.view.sticky <= a {
                    m.view.sticky
                } else {
                    a
                },
            )
            &&& cursor_moved(
                m,
                Action::PageDown,
                env,
                down,
                if m.view.sticky <= b {
                    m.view.sticky
                } else {
                    b
                },
            )
        }),
{
    let s = m.buffer.text;
    let rows = if env.rows > 1 {
        env.rows - 1
    } else {
        1
    };
    let last = rope::line_count(s) - 1;
    if m.view.line >= rows {
        rope::lemma_line_end(s, m.view.line - rows);
    }
    if m.view.line + rows <= last {
        rope::lemma_line_end(s, m.view.line + rows);
    }
    rope::lemma_line_end(s, 0);
    rope::lemma_line_end(s, last);
    lemma_moved_at(m, Action::PageUp, env);
    lemma_moved_at(m, Action::PageDown, env);
}

/// A character of a word: a letter, a digit or an underscore.
pub open spec fn of_word(c: char) -> bool {
    text::unicode_alphanumeric(c) || c == '_'
}

/// The run that `c` is in, of a word or of punctuation, goes on with `d`.
pub open spec fn goes_on(c: char, d: char) -> bool {
    if of_word(c) {
        of_word(d)
    } else {
        !of_word(d) && !text::whitespace(d)
    }
}

/// The cursor is at a place of the text, or at the end of the line there if the place lies
/// past it.
pub open spec fn cursor_at(m: AppModel, a: Action, env: Env, j: int) -> bool {
    let s = m.buffer.text;
    let line = rope::line_of(s, j) as int;
    cursor_moved(
        m,
        a,
        env,
        line,
        if j <= rope::line_end(s, line) {
            j - rope::line_start(s, line)
        } else {
            rope::line_end(s, line) - rope::line_start(s, line)
        },
    )
}

pub proof fn lemma_run_end_is(s: Seq<char>, i: int, p: spec_fn(char) -> bool)
    requires
        0 <= i <= s.len(),
    ensures
        ({
            let k = view::run_end(s, i, p);
            &&& i <= k <= s.len()
            &&& forall|x: int| i <= x < k ==> p(#[trigger] s[x])
            &&& k < s.len() ==> !p(s[k])
        }),
    decreases s.len() - i,
{
    if i < s.len() && p(s[i]) {
        lemma_run_end_is(s, i + 1, p);
    }
}

pub proof fn lemma_run_start_is(s: Seq<char>, i: int, p: spec_fn(char) -> bool)
    requires
        0 <= i <= s.len(),
    ensures
        ({
            let k = view::run_start(s, i, p);
            &&& 0 <= k <= i
            &&& forall|x: int| k <= x < i ==> p(#[trigger] s[x])
            &&& k > 0 ==> !p(s[k - 1])
        }),
    decreases i,
{
    if i > 0 && p(s[i - 1]) {
        lemma_run_start_is(s, i - 1, p);
    }
}

/// A word to the right: past the rest of the run of letters or punctuation at the cursor,
/// and past the whitespace behind it.
pub proof fn law_next_word_key(m: AppModel, env: Env)
    requires
        keys_reach_the_text(m),
        placed(m),
        m.view.top >= 0,
        place(m) < m.buffer.text.len(),
    ensures
        ({
            let s = m.buffer.text;
            let i = place(m);
            exists|k: int, j: int|
                {
                    &&& i <= k <= j <= s.len()
                    &&& forall|x: int| i <= x < k ==> goes_on(s[i], #[trigger] s[x])
                    &&& k < s.len() ==> !goes_on(s[i], s[k])
                    &&& forall|x: int| k <= x < j ==> text::whitespace(#[trigger] s[x])
                    &&& j < s.len() ==> !text::whitespace(s[j])
                    &&& #[trigger] cursor_at(m, Action::MoveWordRight, env, j)
                    &&& #[trigger] s.take(k).len() == k
                }
        }),
{
    let s = m.buffer.text;
    let i = place(m);
    rope::lemma_line_start(s, m.view.line);
    let p = if view::word_char(s[i]) {
        |c: char| view::word_char(c)
    } else {
        |c: char| view::punctuation(c)
    };
    let k = view::run_end(s, i, p);
    lemma_run_end_is(s, i, p);
    let w = |c: char| text::whitespace(c);
    let j = view::run_end(s, k, w);
    lemma_run_end_is(s, k, w);
    assert(j == view::next_word(s, i));
    assert forall|x: int| i <= x < k implies goes_on(s[i], #[trigger] s[x]) by {
        assert(p(s[x]));
    }
    assert forall|x: int| k <= x < j implies text::whitespace(#[trigger] s[x]) by {
        assert(w(s[x]));
    }
    let line = rope::line_of(s, j) as int;
    rope::lemma_line_end(s, line);
    lemma_moved_at(m, Action::MoveWordRight, env);
    assert(cursor_at(m, Action::MoveWordRight, env, j));
    assert(s.take(k).len() == k);
}

/// A word to the left: back over the whitespace before the cursor, and over the run of
/// letters or punctuation before that.
pub proof fn law_previous_word_key(m: AppModel, env: Env)
    requires
        keys_reach_the_text(m),
        placed(m),
        m.view.top >= 0,
        place(m) > 0,
    ensures
        ({
            let s = m.buffer.text;
            let i = place(m);
            exists|k: int, j: int|
                {
                    &&& 0 <= j <= k <= i
                    &&& forall|x: int| k <= x < i ==> text::whitespace(#[trigger] s[x])
                    &&& k > 0 ==> !text::whitespace(s[k - 1])
                    &&& forall|x: int|
                        j <= x < k ==> !text::whitespace(#[trigger] s[x]) && of_word(s[x])
                            == of_word(s[k - 1])
                    &&& 0 < j ==> text::whitespace(s[j - 1]) || of_word(s[j - 1]) != of_word(
                        s[k - 1],
                    )
                    &&& #[trigger] cursor_at(m, Action::MoveWordLeft, env, j)
                    &&& #[trigger] s.take(k).len() == k
                }
        }),
{
    let s = m.buffer.text;
    let i = place(m);
    rope::lemma_line_start(s, m.view.line);
    let w = |c: char| text::whitespace(c);
    let k = view::run_start(s, i, w);
    lemma_run_start_is(s, i, w);
    assert forall|x: int| k <= x < i implies text::whitespace(#[trigger] s[x]) by {
        assert(w(s[x]));
    }
    let j = view::previous_word(s, i);
    if k > 0 {
        let word = view::word_char(s[k - 1]);
        let p = |c: char| !text::whitespace(c) && view::word_char(c) == word;
        lemma_run_start_is(s, k, p);
        assert(j == view::run_start(s, k, p));
        assert forall|x: int| j <= x < k implies !text::whitespace(#[trigger] s[x]) && of_word(
            s[x],
        ) == of_word(s[k - 1]) by {
            assert(p(s[x]));
        }
    }
    let line = rope::line_of(s, j) as int;
    rope::lemma_line_end(s, line);
    lemma_moved_at(m, Action::MoveWordLeft, env);
    assert(cursor_at(m, Action::MoveWordLeft, env, j));
    assert(s.take(k).len() == k);
}

} // verus!
