//! What the failures and the counts of a test run are, seen from its output.

use vstd::prelude::*;

use crate::scan;
use crate::test_runner;
use crate::test_runner::Counts;
use crate::text;

verus! {

/// A line that opens the block of a failed test.
pub open spec fn heads(line: Seq<char>) -> bool {
    test_runner::header_of(line) is Some
}

/// A line that is no part of any block: the head of one, the list of failures, or a
/// summary.
pub open spec fn parts(line: Seq<char>) -> bool {
    let t = scan::trim(line);
    ||| heads(line)
    ||| t == "failures:"@
    ||| t.len() >= "test result:"@.len() && t.take("test result:"@.len() as int)
        == "test result:"@
}

/// `message` is what stands below the head on line `h`: the lines up to the next line
/// that parts blocks, without blank lines at either end.
pub open spec fn stands_below(ls: Seq<Seq<char>>, h: int, message: Seq<char>) -> bool {
    exists|a: int, b: int, e: int|
        {
            &&& h < a <= b <= e <= ls.len()
            &&& e < ls.len() ==> parts(ls[e])
            &&& forall|k: int| h < k < e ==> !parts(#[trigger] ls[k])
            &&& forall|k: int|
                h < k < a || b <= k < e ==> scan::trim(#[trigger] ls[k]).len() == 0
            &&& a < b ==> scan::trim(ls[a]).len() > 0 && scan::trim(ls[b - 1]).len() > 0
            &&& message == scan::join(#[trigger] ls.subrange(a, b), "\n"@)
            &&& #[trigger] ls.take(e).len() == e
        }
}

/// The lines from `i` on that head a block.
spec fn heads_from(ls: Seq<Seq<char>>, i: int) -> Seq<int>
    decreases ls.len() - i,
{
    if i < 0 || i >= ls.len() {
        Seq::empty()
    } else if heads(ls[i]) {
        seq![i] + heads_from(ls, i + 1)
    } else {
        heads_from(ls, i + 1)
    }
}

proof fn lemma_heads_from(ls: Seq<Seq<char>>, i: int)
    requires
        0 <= i,
    ensures
        ({
            let hs = heads_from(ls, i);
            &&& forall|j: int|
                0 <= j < hs.len() ==> i <= #[trigger] hs[j] < ls.len() && heads(ls[hs[j]])
            &&& forall|j: int, k: int| 0 <= j < k < hs.len() ==> #[trigger] hs[j] < #[trigger] hs[k]
            &&& forall|k: int| i <= k < ls.len() && heads(#[trigger] ls[k]) ==> hs.contains(k)
        }),
    decreases ls.len() - i,
{
    if i < ls.len() {
        lemma_heads_from(ls, i + 1);
        let hs = heads_from(ls, i);
        let rest = heads_from(ls, i + 1);
        if heads(ls[i]) {
            assert forall|j: int| 0 < j < hs.len() implies #[trigger] hs[j] == rest[j - 1] by {}
            assert forall|k: int| i <= k < ls.len() && heads(#[trigger] ls[k]) implies hs.contains(
                k,
            ) by {
                if k == i {
                    assert(hs[0] == k);
                } else {
                    let j = choose|j: int| 0 <= j < rest.len() && rest[j] == k;
                    assert(hs[j + 1] == k);
                }
            }
        }
    }
}

proof fn lemma_no_heads(ls: Seq<Seq<char>>, i: int, e: int)
    requires
        0 <= i <= e <= ls.len(),
        forall|k: int| i <= k < e ==> !heads(#[trigger] ls[k]),
    ensures
        heads_from(ls, i) == heads_from(ls, e),
    decreases e - i,
{
    if i < e {
        lemma_no_heads(ls, i + 1, e);
        assert(!heads(ls[i]));
    }
}

proof fn lemma_parts(line: Seq<char>)
    ensures
        test_runner::ends_block(line) == parts(line),
{
    let t = scan::trim(line);
    let mark = "test result:"@;
    if t.len() >= mark.len() {
        assert(t.subrange(0, mark.len() as int) =~= t.take(mark.len() as int));
    }
}

proof fn lemma_end(ls: Seq<Seq<char>>, i: int)
    requires
        0 <= i <= ls.len(),
    ensures
        ({
            let e = test_runner::block_end(ls, i);
            &&& i <= e <= ls.len()
            &&& e < ls.len() ==> parts(ls[e])
            &&& forall|k: int| i <= k < e ==> !parts(#[trigger] ls[k])
        }),
    decreases ls.len() - i,
{
    if i < ls.len() {
        lemma_parts(ls[i]);
        if !test_runner::ends_block(ls[i]) {
            lemma_end(ls, i + 1);
        }
    }
}

/// What is left of lines once the blank ones at either end are gone.
proof fn lemma_trim_blank(ls: Seq<Seq<char>>, i: int, e: int) -> (r: (int, int))
    requires
        0 <= i <= e <= ls.len(),
    ensures
        i <= r.0 <= r.1 <= e,
        test_runner::trim_blank(ls.subrange(i, e)) == ls.subrange(r.0, r.1),
        forall|k: int|
            i <= k < r.0 || r.1 <= k < e ==> scan::trim(#[trigger] ls[k]).len() == 0,
        r.0 < r.1 ==> scan::trim(ls[r.0]).len() > 0 && scan::trim(ls[r.1 - 1]).len() > 0,
    decreases e - i,
{
    let part = ls.subrange(i, e);
    if i < e && scan::blank(ls[i]) {
        assert(part[0] == ls[i]);
        assert(part.skip(1) =~= ls.subrange(i + 1, e));
        lemma_trim_blank(ls, i + 1, e)
    } else if i < e && scan::blank(ls[e - 1]) {
        assert(part[0] == ls[i]);
        assert(part.last() == ls[e - 1]);
        assert(part.drop_last() =~= ls.subrange(i, e - 1));
        lemma_trim_blank(ls, i, e - 1)
    } else {
        if i < e {
            assert(part[0] == ls[i]);
            assert(part.last() == ls[e - 1]);
        }
        (i, e)
    }
}

proof fn lemma_blocks(ls: Seq<Seq<char>>, i: int)
    requires
        0 <= i <= ls.len(),
    ensures
        ({
            let bs = test_runner::blocks_from(ls, i);
            let hs = heads_from(ls, i);
            &&& bs.len() == hs.len()
            &&& forall|j: int|
                0 <= j < bs.len() ==> test_runner::header_of(ls[hs[j]]) == Some(
                    (#[trigger] bs[j]).0,
                ) && stands_below(ls, hs[j], bs[j].1)
        }),
    decreases ls.len() - i,
{
    if i < ls.len() {
        if heads(ls[i]) {
            let e = test_runner::block_end(ls, i + 1);
            lemma_end(ls, i + 1);
            let (a, b) = lemma_trim_blank(ls, i + 1, e);
            lemma_blocks(ls, e);
            assert forall|k: int| i + 1 <= k < e implies !heads(#[trigger] ls[k]) by {
                assert(!parts(ls[k]));
            }
            lemma_no_heads(ls, i + 1, e);
            let bs = test_runner::blocks_from(ls, i);
            let hs = heads_from(ls, i);
            let rest = test_runner::blocks_from(ls, e);
            assert(bs[0] == (
                test_runner::header_of(ls[i])->Some_0,
                scan::join(ls.subrange(a, b), "\n"@),
            ));
            assert(stands_below(ls, i, bs[0].1)) by {
                assert(ls.take(e).len() == e);
            }
            assert forall|j: int| 0 <= j < bs.len() implies test_runner::header_of(ls[hs[j]])
                == Some((#[trigger] bs[j]).0) && stands_below(ls, hs[j], bs[j].1) by {
                if j > 0 {
                    assert(bs[j] == rest[j - 1]);
                    assert(hs[j] == heads_from(ls, e)[j - 1]);
                }
            }
        } else {
            lemma_blocks(ls, i + 1);
        }
    }
}

/// An output has as many failures as it has lines that head a block, in their order.
/// Each goes by the name that its head gives, and its message is what stands below the
/// head, up to the next line that parts blocks. So no line of a message heads a block.
pub proof fn law_one_failure_for_each_head(output: Seq<char>)
    ensures
        ({
            let ls = scan::lines(output);
            let fs = test_runner::failures_of(output);
            exists|hs: Seq<int>|
                {
                    &&& #[trigger] hs.len() == fs.len()
                    &&& forall|j: int|
                        0 <= j < hs.len() ==> 0 <= #[trigger] hs[j] < ls.len() && heads(ls[hs[j]])
                    &&& forall|j: int, k: int|
                        0 <= j < k < hs.len() ==> #[trigger] hs[j] < #[trigger] hs[k]
                    &&& forall|k: int|
                        0 <= k < ls.len() && heads(#[trigger] ls[k]) ==> hs.contains(k)
                    &&& forall|j: int|
                        0 <= j < hs.len() ==> (#[trigger] fs[j]).0 == test_runner::header_of(
                            ls[hs[j]],
                        )->Some_0 && stands_below(ls, hs[j], fs[j].1)
                }
        }),
{
    let ls = scan::lines(output);
    lemma_blocks(ls, 0);
    lemma_heads_from(ls, 0);
    assert(heads_from(ls, 0).len() == test_runner::failures_of(output).len());
}

/// A line heads the block of the test `name` exactly where it reads `---- name stdout ----`,
/// `---- name stderr ----` or `---- name ----`, with whatever whitespace at either end.
pub proof fn law_heads_name_a_test(line: Seq<char>)
    ensures
        ({
            let t = scan::trim(line);
            let framed = t.len() >= 10 && t.take(5) == "---- "@ && t.skip(t.len() - 5) == " ----"@;
            match test_runner::header_of(line) {
                None => !framed,
                Some(name) => {
                    &&& framed
                    &&& t == "---- "@ + name + " stdout ----"@ || t == "---- "@ + name
                        + " stderr ----"@ || t == "---- "@ + name + " ----"@
                    &&& t == "---- "@ + name + " ----"@ ==> {
                        ||| name.len() < 7
                        ||| name.skip(name.len() - 7) != " stdout"@ && name.skip(name.len() - 7)
                            != " stderr"@
                    }
                },
            }
        }),
{
    let t = scan::trim(line);
    reveal_strlit("---- ");
    reveal_strlit(" ----");
    reveal_strlit(" stdout");
    reveal_strlit(" stderr");
    reveal_strlit(" stdout ----");
    reveal_strlit(" stderr ----");
    if t.len() >= 5 {
        assert(t.subrange(0, 5) =~= t.take(5));
        let rest = t.skip(5);
        if rest.len() >= 5 {
            assert(rest.subrange(rest.len() - 5, rest.len() as int) =~= t.skip(t.len() - 5));
        }
    }
    if let Some(name) = test_runner::header_of(line) {
        let rest = t.skip(5);
        let inner = rest.take(rest.len() - 5);
        assert(t =~= "---- "@ + inner + " ----"@) by {
            assert(t =~= t.take(5) + inner + t.skip(t.len() - 5));
        }
        if inner.len() >= 7 {
            assert(inner.subrange(inner.len() - 7, inner.len() as int) =~= inner.skip(
                inner.len() - 7,
            ));
            if inner.skip(inner.len() - 7) == " stdout"@ {
                assert(inner =~= name + " stdout"@);
                assert(" stdout"@ + " ----"@ =~= " stdout ----"@);
                assert(t =~= "---- "@ + name + " stdout ----"@);
            } else if inner.skip(inner.len() - 7) == " stderr"@ {
                assert(inner =~= name + " stderr"@);
                assert(" stderr"@ + " ----"@ =~= " stderr ----"@);
                assert(t =~= "---- "@ + name + " stderr ----"@);
            }
        }
        if name != inner {
            assert(t.len() == name.len() + 17);
            assert(("---- "@ + name + " ----"@).len() == name.len() + 10);
        }
    }
}

/// The end of an output that is kept is as long as the limit lets it be: one character
/// more would not fit.
pub proof fn law_tail_is_the_longest_end(s: Seq<char>, max: int)
    requires
        max >= 0,
    ensures
        ({
            let t = test_runner::tail_of(s, max);
            &&& t.len() <= s.len()
            &&& t == s.skip(s.len() - t.len())
            &&& text::utf8_len(t) <= max
            &&& t.len() < s.len() ==> text::utf8_len(s.skip(s.len() - t.len() - 1)) > max
        }),
{
    let cut = text::utf8_len(s) - max;
    test_runner::law_tail_fits(s, max);
    lemma_first_boundary(s, cut, 0);
    let k = test_runner::boundary_from(s, cut, 0);
    if k > 0 {
        text::lemma_utf8_len_concat(s.take(k - 1), s.skip(k - 1));
        assert(s.take(k - 1) + s.skip(k - 1) =~= s);
    }
}

proof fn lemma_first_boundary(s: Seq<char>, b: int, i: int)
    requires
        0 <= i <= s.len(),
    ensures
        i <= test_runner::boundary_from(s, b, i) <= s.len(),
        test_runner::boundary_from(s, b, i) > i ==> text::utf8_len(
            s.take(test_runner::boundary_from(s, b, i) - 1),
        ) < b,
    decreases s.len() - i,
{
    if i < s.len() && text::utf8_len(s.take(i)) < b {
        lemma_first_boundary(s, b, i + 1);
    }
}

// --------------------------------------------------------------- summary lines

/// The `k`th word is the first number among the words, `n`, and the label follows it.
pub open spec fn tells(ws: Seq<Seq<char>>, k: int, label: Seq<char>, n: nat) -> bool {
    &&& 0 <= k && k + 1 < ws.len()
    &&& scan::parse_number(ws[k], usize::MAX as nat) == Some(n)
    &&& ws[k + 1] == label
    &&& forall|j: int|
        0 <= j < k ==> scan::parse_number(#[trigger] ws[j], usize::MAX as nat) is None
}

/// A number stands before the label in some segment from `from` on.
pub open spec fn told_from(segments: Seq<Seq<char>>, from: int, label: Seq<char>) -> bool {
    exists|i: int, k: int, n: nat|
        from <= i < segments.len() && #[trigger] tells(scan::words(segments[i]), k, label, n)
}

proof fn lemma_first_number(ws: Seq<Seq<char>>, i: int, k: int)
    requires
        0 <= i <= k < ws.len(),
        scan::parse_number(ws[k], usize::MAX as nat) is Some,
        forall|j: int|
            i <= j < k ==> scan::parse_number(#[trigger] ws[j], usize::MAX as nat) is None,
    ensures
        test_runner::first_number(ws, i) == Some(k),
    decreases k - i,
{
    if i < k {
        assert(scan::parse_number(ws[i], usize::MAX as nat) is None);
        lemma_first_number(ws, i + 1, k);
    }
}

proof fn lemma_number_found(ws: Seq<Seq<char>>, i: int)
    requires
        0 <= i,
    ensures
        match test_runner::first_number(ws, i) {
            Some(k) => {
                &&& i <= k < ws.len()
                &&& scan::parse_number(ws[k], usize::MAX as nat) is Some
                &&& forall|j: int|
                    i <= j < k ==> scan::parse_number(#[trigger] ws[j], usize::MAX as nat) is None
            },
            None => true,
        },
    decreases ws.len() - i,
{
    if i < ws.len() && scan::parse_number(ws[i], usize::MAX as nat) is None {
        lemma_number_found(ws, i + 1);
    }
}

/// The count under a label.
spec fn under(c: Counts, label: Seq<char>) -> nat {
    if label == "passed"@ {
        c.passed
    } else if label == "failed"@ {
        c.failed
    } else {
        c.ignored
    }
}

proof fn lemma_labels()
    ensures
        "passed"@ != "failed"@,
        "passed"@ != "ignored"@,
        "failed"@ != "ignored"@,
{
    reveal_strlit("passed");
    reveal_strlit("failed");
    reveal_strlit("ignored");
    assert("passed"@[0] != "failed"@[0]);
    assert("passed"@[0] != "ignored"@[0]);
    assert("failed"@[0] != "ignored"@[0]);
}

proof fn lemma_counted(c: Counts, segment: Seq<char>, label: Seq<char>, k: int, n: nat)
    requires
        label == "passed"@ || label == "failed"@ || label == "ignored"@,
    ensures
        tells(scan::words(segment), k, label, n) ==> under(
            test_runner::counted(c, segment),
            label,
        ) == n,
        (forall|j: int, m: nat| !#[trigger] tells(scan::words(segment), j, label, m)) ==> under(
            test_runner::counted(c, segment),
            label,
        ) == under(c, label),
{
    lemma_labels();
    let ws = scan::words(segment);
    if tells(ws, k, label, n) {
        lemma_first_number(ws, 0, k);
    }
    lemma_number_found(ws, 0);
    if let Some(j) = test_runner::first_number(ws, 0) {
        let m = scan::parse_number(ws[j], usize::MAX as nat)->Some_0;
        if j + 1 < ws.len() && ws[j + 1] == label {
            assert(tells(ws, j, label, m));
        }
    }
}

proof fn lemma_counts_kept(segments: Seq<Seq<char>>, from: int, n: int, label: Seq<char>)
    requires
        label == "passed"@ || label == "failed"@ || label == "ignored"@,
        0 <= from <= n <= segments.len(),
        !told_from(segments, from, label),
    ensures
        under(test_runner::counts_of(segments, n), label) == under(
            test_runner::counts_of(segments, from),
            label,
        ),
    decreases n - from,
{
    if n > from {
        lemma_counts_kept(segments, from, n - 1, label);
        assert forall|j: int, m: nat|
            !#[trigger] tells(scan::words(segments[n - 1]), j, label, m) by {}
        lemma_counted(
            test_runner::counts_of(segments, n - 1),
            segments[n - 1],
            label,
            0,
            0,
        );
    }
}

/// A line is a summary where it holds the mark. Behind the mark the number before each label
/// is its count: the first number of the last segment that has one for the label.
pub proof fn law_summary_lines(line: Seq<char>, at: int, i: int, k: int, n: nat, label: Seq<char>)
    requires
        0 <= at <= line.len() - 12,
        line.subrange(at, at + 12) == "test result:"@,
        forall|j: int| 0 <= j < at ==> #[trigger] line.subrange(j, j + 12) != "test result:"@,
        ({
            let segments = scan::split_on(line.skip(at + 12), ';');
            &&& 0 <= i < segments.len()
            &&& tells(scan::words(segments[i]), k, label, n)
            &&& !told_from(segments, i + 1, label)
        }),
    ensures
        test_runner::summary_of(line) is Some,
        label == "passed"@ ==> test_runner::summary_of(line)->Some_0.passed == n,
        label == "failed"@ ==> test_runner::summary_of(line)->Some_0.failed == n,
        label == "ignored"@ ==> test_runner::summary_of(line)->Some_0.ignored == n,
{
    reveal_strlit("test result:");
    lemma_labels();
    scan::laws::law_finding(line, "test result:"@, 0);
    assert(line.subrange(at, at + "test result:"@.len()) == "test result:"@);
    let found = scan::find_from(line, "test result:"@, 0)->Some_0;
    assert(found == at) by {
        if found < at {
            assert(line.subrange(found, found + 12) != "test result:"@);
        }
    }
    let segments = scan::split_on(line.skip(at + 12), ';');
    if label == "passed"@ || label == "failed"@ || label == "ignored"@ {
        lemma_counted(test_runner::counts_of(segments, i), segments[i], label, k, n);
        lemma_counts_kept(segments, i + 1, segments.len() as int, label);
    }
}

/// A label that no number stands before counts nothing, and a line without the mark is no
/// summary.
pub proof fn law_other_lines_count_nothing(line: Seq<char>)
    ensures
        match test_runner::summary_of(line) {
            Some(c) => exists|at: int| #[trigger]
                line.subrange(at, at + 12) == "test result:"@ && ({
                    let segments = scan::split_on(line.skip(at + 12), ';');
                    &&& !told_from(segments, 0, "passed"@) ==> c.passed == 0
                    &&& !told_from(segments, 0, "failed"@) ==> c.failed == 0
                    &&& !told_from(segments, 0, "ignored"@) ==> c.ignored == 0
                }),
            None => forall|at: int|
                0 <= at <= line.len() - 12 ==> #[trigger] line.subrange(at, at + 12)
                    != "test result:"@,
        },
{
    reveal_strlit("test result:");
    lemma_labels();
    scan::laws::law_finding(line, "test result:"@, 0);
    if let Some(at) = scan::find_from(line, "test result:"@, 0) {
        assert(line.subrange(at, at + 12) == "test result:"@);
        let segments = scan::split_on(line.skip(at + 12), ';');
        if !told_from(segments, 0, "passed"@) {
            lemma_counts_kept(segments, 0, segments.len() as int, "passed"@);
        }
        if !told_from(segments, 0, "failed"@) {
            lemma_counts_kept(segments, 0, segments.len() as int, "failed"@);
        }
        if !told_from(segments, 0, "ignored"@) {
            lemma_counts_kept(segments, 0, segments.len() as int, "ignored"@);
        }
    } else {
        assert forall|at: int| 0 <= at <= line.len() - 12 implies #[trigger] line.subrange(
            at,
            at + 12,
        ) != "test result:"@ by {
            assert(line.subrange(at, at + "test result:"@.len()) != "test result:"@);
        }
    }
}

/// The counts of a run are the sums over the summary lines of what it printed: a further line
/// adds what it counts, and one that is no summary adds nothing.
pub proof fn law_counts_are_sums(ls: Seq<Seq<char>>, line: Seq<char>)
    ensures
        ({
            let before = test_runner::totals(ls, ls.len() as int);
            let after = test_runner::totals(ls.push(line), ls.len() as int + 1);
            match test_runner::summary_of(line) {
                Some(c) => after.passed == before.passed + c.passed && after.failed == before.failed
                    + c.failed && after.ignored == before.ignored + c.ignored,
                None => after == before,
            }
        }),
        ls.len() == 0 ==> test_runner::totals(ls, 0).passed == 0,
{
    lemma_totals_prefix(ls, line, ls.len() as int);
    assert(ls.push(line)[ls.len() as int] == line);
}

proof fn lemma_totals_prefix(ls: Seq<Seq<char>>, line: Seq<char>, n: int)
    requires
        0 <= n <= ls.len(),
    ensures
        test_runner::totals(ls.push(line), n) == test_runner::totals(ls, n),
    decreases n,
{
    if n > 0 {
        lemma_totals_prefix(ls, line, n - 1);
        assert(ls.push(line)[n - 1] == ls[n - 1]);
    }
}

/// The outcome of a run has the counts of what it printed as far as a machine number goes,
/// how it ended, and the end of all that it printed.
pub proof fn law_outcomes(stdout: Seq<char>, stderr: Seq<char>, ok: bool)
    ensures
        ({
            let ls = scan::lines(stdout);
            let c = test_runner::totals(ls, ls.len() as int);
            let r = test_runner::outcome_of(stdout, stderr, ok);
            &&& r.passed == (if c.passed <= usize::MAX {
                c.passed
            } else {
                usize::MAX as nat
            })
            &&& r.failed == (if c.failed <= usize::MAX {
                c.failed
            } else {
                usize::MAX as nat
            })
            &&& r.ignored == (if c.ignored <= usize::MAX {
                c.ignored
            } else {
                usize::MAX as nat
            })
            &&& r.exit_ok == ok
            &&& r.failures == test_runner::failures_of(stdout)
            &&& r.raw_tail == test_runner::tail_of(stdout + stderr, 4096)
        }),
{
}

} // verus!
