//! What the parsed forms of git's output say, seen from that output.

use vstd::prelude::*;

use crate::git;
use crate::git::LineStatus;
use crate::scan;
use crate::scan::laws;
use crate::text;

verus! {

/// A line starts with `mark`.
pub open spec fn opens_with(l: Seq<char>, mark: Seq<char>) -> bool {
    l.len() >= mark.len() && l.take(mark.len() as int) == mark
}

/// The header of a hunk.
pub open spec fn opens_hunk(l: Seq<char>) -> bool {
    opens_with(l, "@@ "@)
}

/// A line of the frame of a diff: no line of either side of the file.
pub open spec fn frames(l: Seq<char>) -> bool {
    ||| opens_with(l, "diff "@)
    ||| opens_with(l, "index "@)
    ||| opens_with(l, "--- "@)
    ||| opens_with(l, "+++ "@)
    ||| opens_with(l, "\\ "@)
}

/// A line that only the new side of the file has.
pub open spec fn adds(l: Seq<char>) -> bool {
    !opens_hunk(l) && !frames(l) && l.len() > 0 && l[0] == '+'
}

/// A line that only the old side of the file has.
pub open spec fn removes(l: Seq<char>) -> bool {
    !opens_hunk(l) && !frames(l) && l.len() > 0 && l[0] == '-'
}

/// A line that both sides of the file have.
pub open spec fn stays(l: Seq<char>) -> bool {
    !opens_hunk(l) && !frames(l) && !(l.len() > 0 && (l[0] == '+' || l[0] == '-'))
}

/// How many of the lines `ls[a..b]` stand on the new side.
pub open spec fn new_side(ls: Seq<Seq<char>>, a: int, b: int) -> nat
    decreases b - a,
{
    if a >= b {
        0
    } else {
        new_side(ls, a, b - 1) + (if adds(ls[b - 1]) || stays(ls[b - 1]) {
            1nat
        } else {
            0nat
        })
    }
}

/// The line of the new side where a hunk starts, counted from zero.
pub open spec fn hunk_from(header: Seq<char>, start: int) -> bool {
    match git::hunk_start(header.skip("@@ "@.len() as int)) {
        Some(n) => start == (if n > 0 {
            n - 1
        } else {
            0
        }),
        None => false,
    }
}

proof fn lemma_opens_with(l: Seq<char>, mark: Seq<char>)
    ensures
        scan::starts_with(l, mark) == opens_with(l, mark),
{
    if l.len() >= mark.len() {
        assert(l.subrange(0, mark.len() as int) =~= l.take(mark.len() as int));
    }
}

proof fn lemma_kinds(l: Seq<char>)
    ensures
        scan::starts_with(l, "@@ "@) == opens_hunk(l),
        git::envelope(l) == frames(l),
{
    lemma_opens_with(l, "@@ "@);
    lemma_opens_with(l, "diff "@);
    lemma_opens_with(l, "index "@);
    lemma_opens_with(l, "--- "@);
    lemma_opens_with(l, "+++ "@);
    lemma_opens_with(l, "\\ "@);
}

/// Within a hunk whose header is line `h`, the place on the new side that line `p` of the
/// diff has, and the changes that the hunk adds.
proof fn lemma_place(ls: Seq<Seq<char>>, h: int, start: int, p: int)
    requires
        0 <= h < p <= ls.len(),
        opens_hunk(ls[h]),
        hunk_from(ls[h], start),
        forall|k: int| h < k < p ==> !opens_hunk(#[trigger] ls[k]),
    ensures
        git::diff_state(ls, p).line == start + new_side(ls, h + 1, p),
        git::diff_state(ls, h + 1).deletes == 0,
        git::diff_state(ls, h + 1).changes == git::diff_state(ls, h).changes,
    decreases p,
{
    lemma_kinds(ls[p - 1]);
    if p > h + 1 {
        lemma_place(ls, h, start, p - 1);
        assert(!opens_hunk(ls[p - 1]));
    } else {
        assert(git::diff_state(ls, h + 1) == git::after_line(git::diff_state(ls, h), ls[h]));
    }
}

/// What one more line adds to the changes.
proof fn lemma_step(ls: Seq<Seq<char>>, p: int)
    requires
        0 <= p < ls.len(),
    ensures
        ({
            let (d, r) = (git::diff_state(ls, p), git::diff_state(ls, p + 1));
            &&& adds(ls[p]) ==> r.changes == d.changes.push(
                (
                    d.line,
                    if d.deletes > 0 {
                        LineStatus::Modified
                    } else {
                        LineStatus::Added
                    },
                ),
            ) && r.deletes == (if d.deletes > 0 {
                (d.deletes - 1) as nat
            } else {
                0
            })
            &&& removes(ls[p]) ==> r.changes == d.changes && r.deletes == d.deletes + 1
            &&& stays(ls[p]) ==> r.deletes == 0 && r.changes == (if d.deletes > 0 {
                d.changes.push((d.line, LineStatus::DeletedAbove))
            } else {
                d.changes
            })
            &&& opens_hunk(ls[p]) ==> r.changes == d.changes && r.deletes == 0
            &&& !opens_hunk(ls[p]) && frames(ls[p]) ==> r.changes == d.changes && r.deletes
                == d.deletes
        }),
{
    lemma_kinds(ls[p]);
    assert(git::diff_state(ls, p + 1) == git::after_line(git::diff_state(ls, p), ls[p]));
}

/// The line of diff `p`, in the hunk with header `h`, is the reason of change `i`.
pub open spec fn marks(ls: Seq<Seq<char>>, i: int, h: int, p: int, change: (nat, LineStatus)) -> bool {
    &&& 0 <= h < p < ls.len()
    &&& opens_hunk(ls[h])
    &&& forall|k: int| h < k <= p ==> !opens_hunk(#[trigger] ls[k])
    &&& git::diff_state(ls, p).changes.len() == i
    &&& adds(ls[p]) || stays(ls[p])
    &&& (change.1 == LineStatus::DeletedAbove) == stays(ls[p])
    &&& forall|start: int|
        #[trigger] hunk_from(ls[h], start) ==> change.0 == start + new_side(ls, h + 1, p)
}

/// The last header of a hunk among the first `p` lines.
proof fn lemma_last_header(ls: Seq<Seq<char>>, g: int, p: int) -> (h: int)
    requires
        0 <= g < p <= ls.len(),
        opens_hunk(ls[g]),
    ensures
        g <= h < p,
        opens_hunk(ls[h]),
        forall|k: int| h < k < p ==> !opens_hunk(#[trigger] ls[k]),
    decreases p,
{
    if opens_hunk(ls[p - 1]) {
        p - 1
    } else {
        lemma_last_header(ls, g, p - 1)
    }
}

proof fn lemma_marks(ls: Seq<Seq<char>>, g: int, n: int, i: int) -> (r: (int, int))
    requires
        0 <= g < n <= ls.len(),
        opens_hunk(ls[g]),
        git::diff_state(ls, g).changes.len() == 0,
        0 <= i < git::diff_state(ls, n).changes.len(),
    ensures
        marks(ls, i, r.0, r.1, git::diff_state(ls, n).changes[i]),
        r.1 < n,
    decreases n,
{
    let p = n - 1;
    let (before, after) = (git::diff_state(ls, p), git::diff_state(ls, n));
    lemma_step(ls, p);
    lemma_kinds(ls[p]);
    if p == g {
        assert(after.changes.len() == 0);
        (0, 0)
    } else if i < before.changes.len() {
        let r = lemma_marks(ls, g, p, i);
        assert(after.changes[i] == before.changes[i]);
        r
    } else {
        let h = lemma_last_header(ls, g, p);
        assert(i == before.changes.len());
        assert(adds(ls[p]) || stays(ls[p]));
        assert(!opens_hunk(ls[p]));
        assert forall|start: int| #[trigger] hunk_from(ls[h], start) implies after.changes[i].0
            == start + new_side(ls, h + 1, p) by {
            lemma_place(ls, h, start, p);
        }
        (h, p)
    }
}

/// Every change that a diff describes comes from a line of it that is on the new side. The
/// line of the change is where the new side of the hunk starts, by the last header before
/// it, and the number of lines on the new side from there on. An added line is marked as
/// added or modified, a line that stays as the place of a deletion.
pub proof fn law_changes_are_counted_from_their_hunk(diff: Seq<char>, g: int, i: int)
    requires
        0 <= g < scan::lines(diff).len(),
        opens_hunk(scan::lines(diff)[g]),
        forall|k: int|
            0 <= k < g ==> frames(#[trigger] scan::lines(diff)[k]) && !opens_hunk(
                scan::lines(diff)[k],
            ),
        0 <= i < git::changes_of(diff).len(),
    ensures
        exists|h: int, p: int|
            #[trigger] marks(scan::lines(diff), i, h, p, git::changes_of(diff)[i]),
{
    let ls = scan::lines(diff);
    lemma_frame_lines(ls, g);
    let (h, p) = lemma_marks(ls, g, ls.len() as int, i);
}

/// Every added line of a hunk is a change, at its place on the new side.
pub proof fn law_added_lines_are_changes(diff: Seq<char>, h: int, start: int, p: int)
    requires
        0 <= h < p < scan::lines(diff).len(),
        opens_hunk(scan::lines(diff)[h]),
        hunk_from(scan::lines(diff)[h], start),
        forall|k: int| h < k <= p ==> !opens_hunk(#[trigger] scan::lines(diff)[k]),
        adds(scan::lines(diff)[p]),
    ensures
        ({
            let line = (start + new_side(scan::lines(diff), h + 1, p)) as nat;
            git::changes_of(diff).contains((line, LineStatus::Added)) || git::changes_of(
                diff,
            ).contains((line, LineStatus::Modified))
        }),
{
    let ls = scan::lines(diff);
    lemma_place(ls, h, start, p);
    lemma_step(ls, p);
    lemma_changes_stay(ls, p + 1, ls.len() as int);
    let k = git::diff_state(ls, p).changes.len() as int;
    assert(git::changes_of(diff)[k] == git::diff_state(ls, p + 1).changes[k]);
}

proof fn lemma_changes_stay(ls: Seq<Seq<char>>, a: int, b: int)
    requires
        0 <= a <= b <= ls.len(),
    ensures
        ({
            let (x, y) = (git::diff_state(ls, a).changes, git::diff_state(ls, b).changes);
            &&& x.len() <= y.len()
            &&& forall|i: int| 0 <= i < x.len() ==> #[trigger] y[i] == x[i]
        }),
    decreases b - a,
{
    if a < b {
        lemma_changes_stay(ls, a, b - 1);
        let y = git::diff_state(ls, b).changes;
        let z = git::diff_state(ls, b - 1).changes;
        assert(git::diff_state(ls, b) == git::after_line(git::diff_state(ls, b - 1), ls[b - 1]));
        assert forall|i: int| 0 <= i < z.len() implies #[trigger] y[i] == z[i] by {}
    }
}

proof fn lemma_frame_lines(ls: Seq<Seq<char>>, g: int)
    requires
        0 <= g <= ls.len(),
        forall|k: int| 0 <= k < g ==> frames(#[trigger] ls[k]) && !opens_hunk(ls[k]),
    ensures
        git::diff_state(ls, g).changes.len() == 0,
    decreases g,
{
    if g > 0 {
        lemma_frame_lines(ls, g - 1);
        lemma_step(ls, g - 1);
        assert(frames(ls[g - 1]));
    }
}

/// A block of a hunk: lines that are removed, lines that are added, and then a line that
/// stays, or the next hunk. Each added line stands for a change: the first ones for
/// lines that were modified, as many as were removed, the others for new lines. Where more
/// lines were removed than added, the line that stays marks a deletion above it.
pub proof fn law_blocks_of_a_hunk(
    ls: Seq<Seq<char>>,
    h: int,
    start: int,
    a: int,
    removed: nat,
    added: nat,
)
    requires
        0 <= h < a,
        a + removed + added < ls.len(),
        opens_hunk(ls[h]),
        hunk_from(ls[h], start),
        forall|k: int| h < k < a ==> !opens_hunk(#[trigger] ls[k]),
        a == h + 1 || stays(ls[a - 1]),
        forall|k: int| a <= k < a + removed ==> removes(#[trigger] ls[k]),
        forall|k: int| a + removed <= k < a + removed + added ==> adds(#[trigger] ls[k]),
        stays(ls[a + removed + added]) || opens_hunk(ls[a + removed + added]),
    ensures
        ({
            let before = git::diff_state(ls, a).changes;
            let after = git::diff_state(ls, a + removed + added + 1).changes;
            let line = start + new_side(ls, h + 1, a);
            let left = removed > added && stays(ls[a + removed + added]);
            &&& after.len() == before.len() + added + (if left {
                1nat
            } else {
                0nat
            })
            &&& forall|i: int| 0 <= i < before.len() ==> #[trigger] after[i] == before[i]
            &&& forall|j: int|
                before.len() <= j < before.len() + added ==> #[trigger] after[j] == (
                    (line + (j - before.len())) as nat,
                    if j - before.len() < removed {
                        LineStatus::Modified
                    } else {
                        LineStatus::Added
                    },
                )
            &&& left ==> after.last() == (
                (line + added) as nat,
                LineStatus::DeletedAbove,
            )
        }),
{
    lemma_place(ls, h, start, a);
    lemma_step(ls, a - 1);
    assert(git::diff_state(ls, a).deletes == 0);
    let line = start + new_side(ls, h + 1, a);
    lemma_removed(ls, a, removed);
    let m = a + removed;
    let before = git::diff_state(ls, a);
    lemma_added(ls, a, m, removed, added);
    lemma_step(ls, m + added);
    lemma_kinds(ls[m + added]);
    let after = git::diff_state(ls, m + added + 1).changes;
    let mid = git::diff_state(ls, m + added).changes;
    assert forall|i: int| 0 <= i < mid.len() implies #[trigger] after[i] == mid[i] by {}
    assert(after.len() > 0 ==> after.last() == after[after.len() - 1]);
}

proof fn lemma_removed(ls: Seq<Seq<char>>, a: int, removed: nat)
    requires
        0 <= a,
        a + removed <= ls.len(),
        git::diff_state(ls, a).deletes == 0,
        forall|k: int| a <= k < a + removed ==> removes(#[trigger] ls[k]),
    ensures
        git::diff_state(ls, a + removed).deletes == removed,
        git::diff_state(ls, a + removed).changes == git::diff_state(ls, a).changes,
        git::diff_state(ls, a + removed).line == git::diff_state(ls, a).line,
    decreases removed,
{
    if removed > 0 {
        lemma_removed(ls, a, (removed - 1) as nat);
        let p = a + removed - 1;
        assert(removes(ls[p]));
        lemma_step(ls, p);
        lemma_kinds(ls[p]);
    }
}

proof fn lemma_added(ls: Seq<Seq<char>>, a: int, m: int, removed: nat, added: nat)
    requires
        0 <= a <= m,
        m + added <= ls.len(),
        git::diff_state(ls, m).deletes == removed,
        git::diff_state(ls, m).changes == git::diff_state(ls, a).changes,
        git::diff_state(ls, m).line == git::diff_state(ls, a).line,
        forall|k: int| m <= k < m + added ==> adds(#[trigger] ls[k]),
    ensures
        ({
            let d = git::diff_state(ls, a);
            let r = git::diff_state(ls, m + added);
            &&& r.deletes == (if removed > added {
                (removed - added) as nat
            } else {
                0
            })
            &&& r.line == d.line + added
            &&& r.changes.len() == d.changes.len() + added
            &&& forall|i: int| 0 <= i < d.changes.len() ==> #[trigger] r.changes[i] == d.changes[i]
            &&& forall|j: int|
                d.changes.len() <= j < d.changes.len() + added ==> #[trigger] r.changes[j] == (
                    (d.line + (j - d.changes.len())) as nat,
                    if j - d.changes.len() < removed {
                        LineStatus::Modified
                    } else {
                        LineStatus::Added
                    },
                )
        }),
    decreases added,
{
    if added > 0 {
        lemma_added(ls, a, m, removed, (added - 1) as nat);
        let p = m + added - 1;
        assert(adds(ls[p]));
        lemma_step(ls, p);
        lemma_kinds(ls[p]);
    }
}

/// The header of a hunk says where its new side starts: the number behind the first plus
/// sign.
pub proof fn law_hunk_headers(before: Seq<char>, n: nat, rest: Seq<char>)
    requires
        laws::lacks(before, '+'),
        n <= usize::MAX,
        rest.len() > 0 ==> !('0' <= rest[0] <= '9'),
    ensures
        git::hunk_start(before + seq!['+'] + scan::decimal(n) + rest) == Some(n),
        git::hunk_start(before) is None,
{
    let number = scan::decimal(n);
    let header = before + seq!['+'] + (number + rest);
    assert(before + seq!['+'] + number + rest =~= header);
    laws::lemma_until_at(before, '+', number + rest);
    assert(header.skip(before.len() as int + 1) =~= number + rest);
    scan::lemma_decimal(n);
    lemma_digits(number, rest);
    assert((number + rest).take(number.len() as int) =~= number);
    scan::law_number_round_trips(n, usize::MAX as nat);
}

proof fn lemma_digits(number: Seq<char>, rest: Seq<char>)
    requires
        scan::all_digits(number),
        rest.len() > 0 ==> !('0' <= rest[0] <= '9'),
    ensures
        git::digit_run(number + rest) == number.len(),
    decreases number.len(),
{
    if number.len() == 0 {
        assert(number + rest =~= rest);
    } else {
        let tail = number.skip(1);
        assert forall|i: int| 0 <= i < tail.len() implies text::ascii_digit(#[trigger] tail[i]) by {
            assert(tail[i] == number[i + 1]);
        }
        lemma_digits(tail, rest);
        assert(text::ascii_digit(number[0]));
        assert((number + rest)[0] == number[0]);
        assert((number + rest).skip(1) =~= tail + rest);
    }
}

/// What `git status --porcelain` prints is read back line by line: the two states, a
/// space, and the path.
pub proof fn law_status_lines(
    ls: Seq<Seq<char>>,
    staged: char,
    unstaged: char,
    path: Seq<char>,
)
    requires
        path.len() > 0,
    ensures
        ({
            let more = ls.push(seq![staged, unstaged, ' '] + path);
            git::statuses_on(more, more.len() as int) == git::statuses_on(
                ls,
                ls.len() as int,
            ).push((path, staged, unstaged))
        }),
        git::statuses_on(Seq::empty(), 0) == Seq::<(Seq<char>, char, char)>::empty(),
{
    let line = seq![staged, unstaged, ' '] + path;
    let more = ls.push(line);
    lemma_statuses_before(ls, line, ls.len() as int);
    assert(line.skip(3) =~= path);
    assert(more[ls.len() as int] == line);
}

proof fn lemma_statuses_before(ls: Seq<Seq<char>>, l: Seq<char>, n: int)
    requires
        0 <= n <= ls.len(),
    ensures
        git::statuses_on(ls.push(l), n) == git::statuses_on(ls, n),
    decreases n,
{
    if n > 0 {
        lemma_statuses_before(ls, l, n - 1);
        assert(ls.push(l)[n - 1] == ls[n - 1]);
    }
}

/// A log is read back commit by commit: five fields with the separator between them.
pub proof fn law_log_lines(ls: Seq<Seq<char>>, fields: Seq<Seq<char>>)
    requires
        fields.len() == 5,
        forall|i: int|
            0 <= i < fields.len() ==> laws::lacks(#[trigger] fields[i], '\u{1f}'),
    ensures
        ({
            let more = ls.push(scan::join(fields, seq!['\u{1f}']));
            git::commits_on(more, more.len() as int) == git::commits_on(
                ls,
                ls.len() as int,
            ).push(fields)
        }),
        git::commits_on(Seq::empty(), 0) == Seq::<Seq<Seq<char>>>::empty(),
{
    let line = scan::join(fields, seq!['\u{1f}']);
    let more = ls.push(line);
    lemma_commits_before(ls, line, ls.len() as int);
    lemma_split_join(fields, '\u{1f}');
    assert(more[ls.len() as int] == line);
}

proof fn lemma_split_join(ps: Seq<Seq<char>>, c: char)
    requires
        ps.len() > 0,
        forall|i: int| 0 <= i < ps.len() ==> laws::lacks(#[trigger] ps[i], c),
    ensures
        scan::split_on(scan::join(ps, seq![c]), c) == ps,
    decreases ps.len(),
{
    let first = ps[0];
    assert(laws::lacks(ps[0], c));
    if ps.len() == 1 {
        laws::law_splitting(first, c, Seq::empty());
        assert(ps =~= seq![first]);
    } else {
        let rest = ps.skip(1);
        assert forall|i: int| 0 <= i < rest.len() implies laws::lacks(#[trigger] rest[i], c) by {
            assert(rest[i] == ps[i + 1]);
        }
        lemma_split_join(rest, c);
        assert(ps =~= seq![first] + rest);
        laws::law_joining(seq![first], rest, seq![c]);
        laws::law_splitting(first, c, scan::join(rest, seq![c]));
        assert(scan::join(seq![first], seq![c]) == first);
    }
}

proof fn lemma_commits_before(ls: Seq<Seq<char>>, l: Seq<char>, n: int)
    requires
        0 <= n <= ls.len(),
    ensures
        git::commits_on(ls.push(l), n) == git::commits_on(ls, n),
    decreases n,
{
    if n > 0 {
        lemma_commits_before(ls, l, n - 1);
        assert(ls.push(l)[n - 1] == ls[n - 1]);
    }
}

/// What is read of the state of files and of commits keeps each part apart.
pub proof fn law_parts_of_entries(v: Seq<git::StatusEntry>, e: git::LogEntry, i: int)
    ensures
        0 <= i < v.len() ==> git::status_parts(v)[i] == (v[i].path@, v[i].staged, v[i].unstaged),
        git::status_parts(v).len() == v.len(),
        git::fields_of(e) == seq![e.sha@, e.short_sha@, e.author@, e.date@, e.subject@],
{
}

} // verus!
