//! What git prints: which lines of the working tree differ from the last commit,
//! the states of files, and commits.

use vstd::prelude::*;

use crate::scan;
use crate::scan::{
    index_until, occurs_here, parse_usize, split_chars, split_lines, sub_chars,
};
use crate::text;
use crate::text::{substring, to_chars, to_text};

pub mod laws;

verus! {

/// One line of `git status --porcelain`: a path with its state in the index and
/// in the working tree.
#[derive(Debug)]
pub struct StatusEntry {
    pub path: String,
    pub staged: char,
    pub unstaged: char,
}

/// One commit of a log.
#[derive(Debug)]
pub struct LogEntry {
    pub sha: String,
    pub short_sha: String,
    pub author: String,
    pub date: String,
    pub subject: String,
}

#[derive(Debug, Clone, Copy, PartialEq, Eq, Structural)]
pub enum LineStatus {
    Added,
    Modified,
    DeletedAbove,
}

#[derive(Debug, Clone, Copy, PartialEq, Eq, Structural)]
pub struct LineChange {
    /// Zero-based line of the working-tree version of the file.
    pub line: usize,
    pub status: LineStatus,
}

/// How many ASCII digits `s` starts with.
pub open spec fn digit_run(s: Seq<char>) -> int
    decreases s.len(),
{
    if s.len() > 0 && text::ascii_digit(s[0]) {
        1 + digit_run(s.skip(1))
    } else {
        0
    }
}

proof fn lemma_digit_run(s: Seq<char>)
    ensures
        0 <= digit_run(s) <= s.len(),
    decreases s.len(),
{
    if s.len() > 0 && text::ascii_digit(s[0]) {
        lemma_digit_run(s.skip(1));
    }
}

/// The number after the first plus sign of a hunk header.
pub open spec fn hunk_start(header: Seq<char>) -> Option<nat> {
    let plus = scan::until(header, '+');
    if plus >= header.len() {
        None
    } else {
        let head = header.skip(plus + 1);
        scan::parse_number(head.take(digit_run(head)), usize::MAX as nat)
    }
}

/// Reads the first line of the new side out of a hunk header, which follows the
/// opening `@@ `.
pub fn parse_hunk_new_start(header: &str) -> (r: Option<usize>)
    ensures
        match r {
            Some(n) => hunk_start(header@) == Some(n as nat),
            None => hunk_start(header@) is None,
        },
{
    let cs = to_chars(header);
    hunk_start_of(&cs)
}

fn hunk_start_of(cs: &Vec<char>) -> (r: Option<usize>)
    ensures
        match r {
            Some(n) => hunk_start(cs@) == Some(n as nat),
            None => hunk_start(cs@) is None,
        },
{
    let plus: usize = index_until(cs, '+', 0);
    assert(cs@.skip(0) =~= cs@);
    if plus == cs.len() {
        return None;
    }
    let from: usize = plus + 1;
    let mut end: usize = from;
    let ghost head = cs@.skip(from as int);
    while end < cs.len() && cs[end] >= '0' && cs[end] <= '9'
        invariant
            from <= end <= cs@.len(),
            head == cs@.skip(from as int),
            digit_run(head) == (end - from) + digit_run(cs@.skip(end as int)),
        decreases cs@.len() - end,
    {
        assert(cs@.skip(end as int).skip(1) =~= cs@.skip(end + 1));
        end += 1;
    }
    let digits = sub_chars(cs, from, end);
    assert(digits@ =~= head.take(digit_run(head)));
    parse_usize(&digits)
}

/// Where a diff stands: the next line of the new side, the removed lines that no
/// added line has replaced yet, and the changes found so far.
pub struct DiffState {
    pub line: nat,
    pub deletes: nat,
    pub changes: Seq<(nat, LineStatus)>,
}

/// A line of the diff's frame, which says nothing of the file's lines.
pub open spec fn envelope(l: Seq<char>) -> bool {
    ||| scan::starts_with(l, "diff "@)
    ||| scan::starts_with(l, "index "@)
    ||| scan::starts_with(l, "--- "@)
    ||| scan::starts_with(l, "+++ "@)
    ||| scan::starts_with(l, "\\ "@)
}

/// The state after one more line. An added line replaces a removed one, if one
/// is waiting; what is left of the removed lines is marked at the next line that
/// stays.
pub open spec fn after_line(d: DiffState, l: Seq<char>) -> DiffState {
    if scan::starts_with(l, "@@ "@) {
        let line = match hunk_start(l.skip("@@ "@.len() as int)) {
            Some(n) => if n > 0 {
                (n - 1) as nat
            } else {
                0
            },
            None => d.line,
        };
        DiffState { line, deletes: 0, ..d }
    } else if envelope(l) {
        d
    } else if l.len() > 0 && l[0] == '+' {
        if d.deletes > 0 {
            DiffState {
                line: d.line + 1,
                deletes: (d.deletes - 1) as nat,
                changes: d.changes.push((d.line, LineStatus::Modified)),
            }
        } else {
            DiffState {
                line: d.line + 1,
                deletes: 0,
                changes: d.changes.push((d.line, LineStatus::Added)),
            }
        }
    } else if l.len() > 0 && l[0] == '-' {
        DiffState { deletes: d.deletes + 1, ..d }
    } else if d.deletes > 0 {
        DiffState {
            line: d.line + 1,
            deletes: 0,
            changes: d.changes.push((d.line, LineStatus::DeletedAbove)),
        }
    } else {
        DiffState { line: d.line + 1, ..d }
    }
}

/// The state after the first `n` lines.
pub open spec fn diff_state(ls: Seq<Seq<char>>, n: int) -> DiffState
    decreases n,
{
    if n <= 0 {
        DiffState { line: 0, deletes: 0, changes: Seq::empty() }
    } else {
        after_line(diff_state(ls, n - 1), ls[n - 1])
    }
}

/// The changes that a diff describes.
pub open spec fn changes_of(diff: Seq<char>) -> Seq<(nat, LineStatus)> {
    let ls = scan::lines(diff);
    diff_state(ls, ls.len() as int).changes
}

/// The line numbers of the diff are machine numbers.
pub open spec fn line_numbers_fit(diff: Seq<char>) -> bool {
    let ls = scan::lines(diff);
    forall|n: int| 0 <= n <= ls.len() ==> (#[trigger] diff_state(ls, n)).line <= usize::MAX
}

pub open spec fn change_pairs(v: Seq<LineChange>) -> Seq<(nat, LineStatus)> {
    Seq::new(v.len(), |i: int| (v[i].line as nat, v[i].status))
}

proof fn lemma_deletes_bound(ls: Seq<Seq<char>>, n: int)
    requires
        0 <= n,
    ensures
        diff_state(ls, n).deletes <= n,
    decreases n,
{
    if n > 0 {
        lemma_deletes_bound(ls, n - 1);
    }
}

/// The changes that a unified diff describes, on the lines of its new side.
pub fn parse_diff(diff: &str) -> (r: Vec<LineChange>)
    requires
        line_numbers_fit(diff@),
    ensures
        change_pairs(r@) == changes_of(diff@),
{
    parse_diff_checked(diff).unwrap()
}

/// The changes that a unified diff describes; `None` where a line number is too
/// large for the machine.
pub fn parse_diff_checked(diff: &str) -> (r: Option<Vec<LineChange>>)
    ensures
        match r {
            Some(changes) => line_numbers_fit(diff@) && change_pairs(changes@) == changes_of(diff@),
            None => !line_numbers_fit(diff@),
        },
{
    let ls = split_lines(&to_chars(diff));
    let ghost ms = scan::lines(diff@);
    let hunk = to_chars("@@ ");
    let mut out: Vec<LineChange> = Vec::new();
    let mut new_line: usize = 0;
    let mut deletes: usize = 0;
    let mut i: usize = 0;
    assert(change_pairs(out@) =~= Seq::<(nat, LineStatus)>::empty());
    while i < ls.len()
        invariant
            hunk@ == "@@ "@,
            ms == scan::lines(diff@),
            scan::views(ls@) == ms,
            i <= ls@.len() == ms.len(),
            ls.len() == ls@.len(),
            forall|n: int| 0 <= n <= i ==> (#[trigger] diff_state(ms, n)).line <= usize::MAX,
            diff_state(ms, i as int) == (DiffState {
                line: new_line as nat,
                deletes: deletes as nat,
                changes: change_pairs(out@),
            }),
        decreases ls@.len() - i,
    {
        let ghost before = change_pairs(out@);
        let l = &ls[i];
        assert(l@ == ms[i as int]);
        proof {
            lemma_deletes_bound(ms, i as int);
        }
        if occurs_here(l, &hunk, 0) {
            let rest = sub_chars(l, hunk.len(), l.len());
            assert(rest@ =~= l@.skip(hunk@.len() as int));
            match hunk_start_of(&rest) {
                Some(n) => {
                    new_line = n.saturating_sub(1);
                },
                None => {},
            }
            deletes = 0;
        } else if is_envelope(l) {
        } else if l.len() > 0 && l[0] == '-' {
            deletes = deletes + 1;
        } else {
            if new_line == usize::MAX {
                assert(diff_state(ms, i + 1).line > usize::MAX);
                return None;
            }
            if l.len() > 0 && l[0] == '+' {
                if deletes > 0 {
                    out.push(LineChange { line: new_line, status: LineStatus::Modified });
                    deletes = deletes - 1;
                } else {
                    out.push(LineChange { line: new_line, status: LineStatus::Added });
                }
                assert(change_pairs(out@) =~= before.push((new_line as nat, out@.last().status)));
            } else if deletes > 0 {
                out.push(LineChange { line: new_line, status: LineStatus::DeletedAbove });
                deletes = 0;
                assert(change_pairs(out@) =~= before.push((new_line as nat, out@.last().status)));
            }
            new_line = new_line + 1;
        }
        i += 1;
    }
    Some(out)
}

fn is_envelope(l: &Vec<char>) -> (r: bool)
    ensures
        r == envelope(l@),
{
    occurs_here(l, &to_chars("diff "), 0) || occurs_here(l, &to_chars("index "), 0) || occurs_here(
        l,
        &to_chars("--- "),
        0,
    ) || occurs_here(l, &to_chars("+++ "), 0) || occurs_here(l, &to_chars("\\ "), 0)
}

/// What became of asking for a file's diff, as changes: a failure is passed on.
pub fn diff_against_head(diff: Result<String, String>) -> (r: Result<
    Option<Vec<LineChange>>,
    String,
>)
    ensures
        match diff {
            Ok(d) => match r {
                Ok(Some(changes)) => line_numbers_fit(d@) && change_pairs(changes@) == changes_of(
                    d@,
                ),
                Ok(None) => !line_numbers_fit(d@),
                Err(_) => false,
            },
            Err(e) => r == Err::<Option<Vec<LineChange>>, _>(e),
        },
{
    match diff {
        Ok(d) => Ok(parse_diff_checked(&d)),
        Err(e) => Err(e),
    }
}

// ----------------------------------------------------------- states and commits

/// The path and the two states on a line of `git status --porcelain`.
pub open spec fn status_on(l: Seq<char>) -> Option<(Seq<char>, char, char)> {
    if l.len() > 3 {
        Some((l.skip(3), l[0], l[1]))
    } else {
        None
    }
}

/// The paths and their states on the first `n` lines.
pub open spec fn statuses_on(ls: Seq<Seq<char>>, n: int) -> Seq<(Seq<char>, char, char)>
    decreases n,
{
    if n <= 0 {
        Seq::empty()
    } else {
        match status_on(ls[n - 1]) {
            Some(e) => statuses_on(ls, n - 1).push(e),
            None => statuses_on(ls, n - 1),
        }
    }
}

pub open spec fn status_parts(v: Seq<StatusEntry>) -> Seq<(Seq<char>, char, char)> {
    Seq::new(v.len(), |i: int| (v[i].path@, v[i].staged, v[i].unstaged))
}

fn char_at(cs: &[char], i: usize) -> (r: char)
    requires
        i < cs@.len(),
    ensures
        r == cs@[i as int],
{
    cs[i]
}

/// Reads what `git status --porcelain` printed.
pub fn parse_status(printed: &str) -> (r: Vec<StatusEntry>)
    ensures
        status_parts(r@) == statuses_on(
            scan::lines(printed@),
            scan::lines(printed@).len() as int,
        ),
{
    let ls = split_lines(&to_chars(printed));
    let ghost ms = scan::lines(printed@);
    let mut r: Vec<StatusEntry> = Vec::new();
    let mut i: usize = 0;
    assert(status_parts(r@) =~= statuses_on(ms, 0));
    while i < ls.len()
        invariant
            i <= ls@.len(),
            ms == scan::views(ls@),
            status_parts(r@) == statuses_on(ms, i as int),
        decreases ls@.len() - i,
    {
        assert(ms[i as int] == ls@[i as int]@);
        if ls[i].len() > 3 {
            let ghost before = status_parts(r@);
            let entry = StatusEntry {
                path: substring(&ls[i], 3, ls[i].len()),
                staged: char_at(&ls[i], 0),
                unstaged: char_at(&ls[i], 1),
            };
            let ghost parts = (entry.path@, entry.staged, entry.unstaged);
            assert(entry.path@ =~= ms[i as int].skip(3));
            r.push(entry);
            assert(status_parts(r@) =~= before.push(parts));
        }
        i += 1;
    }
    r
}

/// What stands between the fields of a line of a log.
pub const FIELD_END: char = '\u{1f}';

/// The fields of a commit, in the order in which a log prints them.
pub open spec fn fields_of(e: LogEntry) -> Seq<Seq<char>> {
    seq![e.sha@, e.short_sha@, e.author@, e.date@, e.subject@]
}

pub open spec fn log_fields(v: Seq<LogEntry>) -> Seq<Seq<Seq<char>>> {
    Seq::new(v.len(), |i: int| fields_of(v[i]))
}

/// The commits on the first `n` lines: those with as many fields as a commit has.
pub open spec fn commits_on(ls: Seq<Seq<char>>, n: int) -> Seq<Seq<Seq<char>>>
    decreases n,
{
    if n <= 0 {
        Seq::empty()
    } else {
        let fields = scan::split_on(ls[n - 1], FIELD_END);
        if fields.len() == 5 {
            commits_on(ls, n - 1).push(fields)
        } else {
            commits_on(ls, n - 1)
        }
    }
}

/// Reads a log with one commit on a line and `FIELD_END` between the fields.
pub fn parse_log(printed: &str) -> (r: Vec<LogEntry>)
    ensures
        log_fields(r@) == commits_on(scan::lines(printed@), scan::lines(printed@).len() as int),
{
    let ls = split_lines(&to_chars(printed));
    let ghost ms = scan::lines(printed@);
    let mut r: Vec<LogEntry> = Vec::new();
    let mut i: usize = 0;
    assert(log_fields(r@) =~= commits_on(ms, 0));
    while i < ls.len()
        invariant
            i <= ls@.len(),
            ms == scan::views(ls@),
            log_fields(r@) == commits_on(ms, i as int),
        decreases ls@.len() - i,
    {
        assert(ms[i as int] == ls@[i as int]@);
        let fields = split_chars(&ls[i], FIELD_END);
        if fields.len() == 5 {
            let ghost before = log_fields(r@);
            let entry = LogEntry {
                sha: to_text(&fields[0]),
                short_sha: to_text(&fields[1]),
                author: to_text(&fields[2]),
                date: to_text(&fields[3]),
                subject: to_text(&fields[4]),
            };
            assert(fields_of(entry) =~= scan::views(fields@));
            r.push(entry);
            assert(log_fields(r@) =~= before.push(scan::views(fields@)));
        }
        i += 1;
    }
    r
}

/// The lines that a diff marks never go down within one hunk: each change is at
/// or after the ones before it, as long as no other hunk header comes between.
pub proof fn law_changes_ascend_within_a_hunk(ls: Seq<Seq<char>>, a: int, b: int, i: int, j: int)
    requires
        0 <= a <= b <= ls.len(),
        forall|k: int|
            a <= k < b ==> !scan::starts_with(#[trigger] ls[k], "@@ "@),
        diff_state(ls, a).changes.len() <= i < j < diff_state(ls, b).changes.len(),
    ensures
        diff_state(ls, b).changes[i].0 < diff_state(ls, b).changes[j].0,
{
    lemma_hunk_changes(ls, a, b);
}

proof fn lemma_hunk_changes(ls: Seq<Seq<char>>, a: int, b: int)
    requires
        0 <= a <= b <= ls.len(),
        forall|k: int|
            a <= k < b ==> !scan::starts_with(#[trigger] ls[k], "@@ "@),
    ensures
        diff_state(ls, a).changes.len() <= diff_state(ls, b).changes.len(),
        forall|i: int|
            diff_state(ls, a).changes.len() <= i < diff_state(ls, b).changes.len() ==> (
            #[trigger] diff_state(ls, b).changes[i]).0 < diff_state(ls, b).line,
        forall|i: int, j: int|
            diff_state(ls, a).changes.len() <= i < j < diff_state(ls, b).changes.len() ==> (
            #[trigger] diff_state(ls, b).changes[i]).0 < (#[trigger] diff_state(
                ls,
                b,
            ).changes[j]).0,
    decreases b - a,
{
    if a < b {
        lemma_hunk_changes(ls, a, b - 1);
        let before = diff_state(ls, b - 1);
        let after = diff_state(ls, b);
        assert(!scan::starts_with(ls[b - 1], "@@ "@));
        assert(after.changes.len() <= before.changes.len() + 1);
        assert forall|i: int| 0 <= i < before.changes.len() implies after.changes[i]
            == before.changes[i] by {}
    }
}

} // verus!
