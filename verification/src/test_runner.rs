//! The command line of a test run, and what its output says.

use vstd::prelude::*;

use crate::error::EditorError;
use crate::language::TestRunnerKind;
use crate::scan;
use crate::scan::{
    find_chars,
    join_chars,
    occurs_here,
    parse_usize,
    split_chars,
    split_lines,
    split_words,
    sub_chars,
    trim_chars,
};
use crate::text;
use crate::text::{byte_len, char_len, join2, owned, same_chars, substring, to_chars, to_text};

pub mod laws;

verus! {

/// The last bytes of the output that are kept verbatim.
pub const RAW_TAIL_MAX_BYTES: usize = 4096;

/// One failed test: its path and what it printed.
#[derive(Debug)]
pub struct TestFailure {
    pub name: String,
    pub message: String,
}

/// The outcome of a test run, summed over its test binaries. `exit_ok` is the
/// exit status of the process, which a compile error fails without any result.
#[derive(Debug)]
pub struct TestResults {
    pub passed: usize,
    pub failed: usize,
    pub ignored: usize,
    pub failures: Vec<TestFailure>,
    pub exit_ok: bool,
    pub raw_tail: String,
}

/// What a test run came to.
#[verifier::ext_equal]
pub struct ResultsModel {
    pub passed: nat,
    pub failed: nat,
    pub ignored: nat,
    pub failures: Seq<(Seq<char>, Seq<char>)>,
    pub exit_ok: bool,
    pub raw_tail: Seq<char>,
}

impl View for TestFailure {
    type V = (Seq<char>, Seq<char>);

    open spec fn view(&self) -> (Seq<char>, Seq<char>) {
        (self.name@, self.message@)
    }
}

pub open spec fn failure_views(v: Seq<TestFailure>) -> Seq<(Seq<char>, Seq<char>)> {
    Seq::new(v.len(), |i: int| v[i]@)
}

impl View for TestResults {
    type V = ResultsModel;

    open spec fn view(&self) -> ResultsModel {
        ResultsModel {
            passed: self.passed as nat,
            failed: self.failed as nat,
            ignored: self.ignored as nat,
            failures: failure_views(self.failures@),
            exit_ok: self.exit_ok,
            raw_tail: self.raw_tail@,
        }
    }
}

impl TestResults {
    /// A copy.
    pub fn duplicate(&self) -> (r: TestResults)
        ensures
            r@ == self@,
    {
        let mut failures: Vec<TestFailure> = Vec::new();
        let mut i: usize = 0;
        assert(failure_views(failures@) =~= failure_views(self.failures@).take(0));
        while i < self.failures.len()
            invariant
                i <= self.failures@.len(),
                failure_views(failures@) == failure_views(self.failures@).take(i as int),
            decreases self.failures@.len() - i,
        {
            let ghost before = failure_views(failures@);
            let f = &self.failures[i];
            failures.push(TestFailure { name: f.name.clone(), message: f.message.clone() });
            assert(failure_views(failures@) =~= before.push(f@));
            i += 1;
            assert(failure_views(self.failures@).take(i as int) =~= before.push(f@));
        }
        assert(failure_views(self.failures@).take(i as int) =~= failure_views(self.failures@));
        TestResults {
            passed: self.passed,
            failed: self.failed,
            ignored: self.ignored,
            failures,
            exit_ok: self.exit_ok,
            raw_tail: self.raw_tail.clone(),
        }
    }
}

// ---------------------------------------------------------------- command line

/// The `Debug` notation of a text.
pub uninterp spec fn debug_notation(s: Seq<char>) -> Seq<char>;

/// A character that stands for itself in the `Debug` notation of a text.
pub open spec fn plain(c: char) -> bool {
    0x20 <= (c as u32) < 0x7f && c != '"' && c != '\\'
}

/// The `Debug` formatting of `str`. The notation depends on the text alone; a
/// text of plain printable ASCII characters is put between double quotes.
#[verifier::external_body]
fn debug_text(s: &str) -> (r: String)
    ensures
        r@ == debug_notation(s@),
        (forall|i: int| 0 <= i < s@.len() ==> plain(#[trigger] s@[i])) ==> r@ == seq!['"'] + s@
            + seq!['"'],
{
    format!("{:?}", s)
}

/// Whether a test filter could be taken for a flag.
pub open spec fn flag_like(target: Option<Seq<char>>) -> bool {
    match target {
        Some(t) => t.len() > 0 && t[0] == '-',
        None => false,
    }
}

/// The view of an optional borrowed string.
pub open spec fn target_view(target: Option<&str>) -> Option<Seq<char>> {
    match target {
        Some(t) => Some(t@),
        None => None,
    }
}

/// The views of a sequence of borrowed strings.
pub open spec fn str_views(v: Seq<&'static str>) -> Seq<Seq<char>> {
    Seq::new(v.len(), |i: int| v[i]@)
}

/// The arguments of a test run: the command's own, no colors, and behind a
/// separator the filter.
pub open spec fn run_arguments(argv: Seq<Seq<char>>, target: Option<Seq<char>>) -> Seq<Seq<char>> {
    let base = argv + seq!["--color"@, "never"@];
    match target {
        Some(t) => base + seq!["--"@, t],
        None => base,
    }
}

/// The program and the arguments of a test run. A command without a program is
/// refused, and so is a filter that starts with a dash.
pub fn command_line(cmd: &Vec<&'static str>, target: Option<&str>) -> (r: Result<
    Vec<String>,
    EditorError,
>)
    ensures
        match r {
            Ok(args) => cmd@.len() > 0 && !flag_like(target_view(target)) && scan::string_views(
                args@,
            ) == run_arguments(str_views(cmd@), target_view(target)),
            Err(e) => if cmd@.len() == 0 {
                e == EditorError::EmptyTestCommand
            } else {
                flag_like(target_view(target)) && (
                e matches EditorError::FilterLooksLikeFlag { filter }
                    && filter@ == debug_notation(target->Some_0@))
            },
        },
{
    if cmd.len() == 0 {
        return Err(EditorError::EmptyTestCommand);
    }
    if let Some(t) = target {
        let cs = to_chars(t);
        if cs.len() > 0 && cs[0] == '-' {
            return Err(EditorError::FilterLooksLikeFlag { filter: debug_text(t) });
        }
    }
    let mut args: Vec<String> = Vec::new();
    let mut i: usize = 0;
    assert(scan::string_views(args@) =~= str_views(cmd@).take(0));
    while i < cmd.len()
        invariant
            i <= cmd@.len(),
            scan::string_views(args@) == str_views(cmd@).take(i as int),
        decreases cmd@.len() - i,
    {
        let ghost before = scan::string_views(args@);
        args.push(owned(cmd[i]));
        assert(scan::string_views(args@) =~= before.push(cmd@[i as int]@));
        i += 1;
        assert(str_views(cmd@).take(i as int) =~= before.push(cmd@[i - 1]@));
    }
    assert(str_views(cmd@).take(i as int) =~= str_views(cmd@));
    let ghost own = str_views(cmd@);
    args.push(owned("--color"));
    args.push(owned("never"));
    assert(scan::string_views(args@) =~= own + seq!["--color"@, "never"@]);
    let ghost base = own + seq!["--color"@, "never"@];
    if let Some(t) = target {
        args.push(owned("--"));
        args.push(owned(t));
        assert(scan::string_views(args@) =~= base + seq!["--"@, t@]);
    }
    Ok(args)
}

// --------------------------------------------------------------- summary lines

/// Passed, failed and ignored counts.
pub struct Counts {
    pub passed: nat,
    pub failed: nat,
    pub ignored: nat,
}

/// The first word from `i` on that is a number.
pub open spec fn first_number(ws: Seq<Seq<char>>, i: int) -> Option<int>
    decreases ws.len() - i,
{
    if i < 0 || i >= ws.len() {
        None
    } else if scan::parse_number(ws[i], usize::MAX as nat) is Some {
        Some(i)
    } else {
        first_number(ws, i + 1)
    }
}

/// The counts after one segment of a summary: its first number belongs to the
/// label that follows it.
pub open spec fn counted(c: Counts, segment: Seq<char>) -> Counts {
    let ws = scan::words(segment);
    match first_number(ws, 0) {
        Some(k) => {
            let n = scan::parse_number(ws[k], usize::MAX as nat)->Some_0;
            if k + 1 >= ws.len() {
                c
            } else if ws[k + 1] == "passed"@ {
                Counts { passed: n, ..c }
            } else if ws[k + 1] == "failed"@ {
                Counts { failed: n, ..c }
            } else if ws[k + 1] == "ignored"@ {
                Counts { ignored: n, ..c }
            } else {
                c
            }
        },
        None => c,
    }
}

/// The counts after the first `n` segments.
pub open spec fn counts_of(segments: Seq<Seq<char>>, n: int) -> Counts
    decreases n,
{
    if n <= 0 {
        Counts { passed: 0, failed: 0, ignored: 0 }
    } else {
        counted(counts_of(segments, n - 1), segments[n - 1])
    }
}

/// The counts of a summary line; `None` for any other line.
pub open spec fn summary_of(line: Seq<char>) -> Option<Counts> {
    match scan::find(line, "test result:"@) {
        Some(i) => {
            let segments = scan::split_on(line.skip(i + "test result:"@.len()), ';');
            Some(counts_of(segments, segments.len() as int))
        },
        None => None,
    }
}

pub fn parse_summary_line(line: &str) -> (r: Option<(usize, usize, usize)>)
    ensures
        match r {
            Some((p, f, i)) => summary_of(line@) == Some(
                Counts { passed: p as nat, failed: f as nat, ignored: i as nat },
            ),
            None => summary_of(line@) is None,
        },
{
    let cs = to_chars(line);
    let mark = to_chars("test result:");
    match find_chars(&cs, &mark, 0) {
        Some(at) => {
            let rest = sub_chars(&cs, at + mark.len(), cs.len());
            assert(rest@ =~= cs@.skip(at + mark@.len()));
            let segments = split_chars(&rest, ';');
            let mut passed: usize = 0;
            let mut failed: usize = 0;
            let mut ignored: usize = 0;
            let mut i: usize = 0;
            while i < segments.len()
                invariant
                    i <= segments@.len(),
                    counts_of(scan::views(segments@), i as int) == (Counts {
                        passed: passed as nat,
                        failed: failed as nat,
                        ignored: ignored as nat,
                    }),
                decreases segments@.len() - i,
            {
                assert(scan::views(segments@)[i as int] == segments@[i as int]@);
                match segment_count(&segments[i]) {
                    Some((0, n)) => {
                        passed = n;
                    },
                    Some((1, n)) => {
                        failed = n;
                    },
                    Some((_, n)) => {
                        ignored = n;
                    },
                    None => {},
                }
                i += 1;
            }
            Some((passed, failed, ignored))
        },
        None => None,
    }
}

/// Which count a segment sets (0 passed, 1 failed, 2 ignored), and to what.
fn segment_count(segment: &Vec<char>) -> (r: Option<(u8, usize)>)
    ensures
        forall|c: Counts|
            #![trigger counted(c, segment@)]
            counted(c, segment@) == match r {
                Some((0, n)) => Counts { passed: n as nat, ..c },
                Some((1, n)) => Counts { failed: n as nat, ..c },
                Some((_, n)) => Counts { ignored: n as nat, ..c },
                None => c,
            },
{
    let ws = split_words(segment);
    let ghost ms = scan::words(segment@);
    let passed = to_chars("passed");
    let failed = to_chars("failed");
    let ignored = to_chars("ignored");
    let mut k: usize = 0;
    while k < ws.len()
        invariant
            scan::views(ws@) == ms,
            ms == scan::words(segment@),
            k <= ws@.len() == ms.len(),
            first_number(ms, 0) == first_number(ms, k as int),
            passed@ == "passed"@,
            failed@ == "failed"@,
            ignored@ == "ignored"@,
        decreases ws@.len() - k,
    {
        assert(ws@[k as int]@ == ms[k as int]);
        match parse_usize(&ws[k]) {
            Some(n) => {
                if k + 1 >= ws.len() {
                    return None;
                }
                assert(ws@[k + 1]@ == ms[k + 1]);
                if same_chars(&ws[k + 1], &passed) {
                    return Some((0, n));
                }
                if same_chars(&ws[k + 1], &failed) {
                    return Some((1, n));
                }
                if same_chars(&ws[k + 1], &ignored) {
                    return Some((2, n));
                }
                return None;
            },
            None => {},
        }
        k += 1;
    }
    None
}

// -------------------------------------------------------------- failure blocks

/// `s` without the prefix `p`.
pub open spec fn strip_prefix(s: Seq<char>, p: Seq<char>) -> Option<Seq<char>> {
    if scan::starts_with(s, p) {
        Some(s.skip(p.len() as int))
    } else {
        None
    }
}

/// `s` without the suffix `p`.
pub open spec fn strip_suffix(s: Seq<char>, p: Seq<char>) -> Option<Seq<char>> {
    if scan::ends_with(s, p) {
        Some(s.take(s.len() - p.len()))
    } else {
        None
    }
}

fn without_prefix(s: &Vec<char>, p: &str) -> (r: Option<Vec<char>>)
    ensures
        match r {
            Some(t) => strip_prefix(s@, p@) == Some(t@),
            None => strip_prefix(s@, p@) is None,
        },
{
    let q = to_chars(p);
    if occurs_here(s, &q, 0) {
        let t = sub_chars(s, q.len(), s.len());
        assert(t@ =~= s@.skip(q@.len() as int));
        Some(t)
    } else {
        None
    }
}

fn without_suffix(s: &Vec<char>, p: &str) -> (r: Option<Vec<char>>)
    ensures
        match r {
            Some(t) => strip_suffix(s@, p@) == Some(t@),
            None => strip_suffix(s@, p@) is None,
        },
{
    let q = to_chars(p);
    if q.len() <= s.len() && occurs_here(s, &q, s.len() - q.len()) {
        let t = sub_chars(s, 0, s.len() - q.len());
        assert(t@ =~= s@.take(s@.len() - q@.len()));
        Some(t)
    } else {
        None
    }
}

/// The test that a failure block's first line names.
pub open spec fn header_of(line: Seq<char>) -> Option<Seq<char>> {
    match strip_prefix(scan::trim(line), "---- "@) {
        None => None,
        Some(rest) => match strip_suffix(rest, " ----"@) {
            None => None,
            Some(inner) => match strip_suffix(inner, " stdout"@) {
                Some(name) => Some(name),
                None => match strip_suffix(inner, " stderr"@) {
                    Some(name) => Some(name),
                    None => Some(inner),
                },
            },
        },
    }
}

pub fn parse_failure_header(line: &str) -> (r: Option<String>)
    ensures
        match r {
            Some(name) => header_of(line@) == Some(name@),
            None => header_of(line@) is None,
        },
{
    let cs = to_chars(line);
    match header_chars(&cs) {
        Some(name) => Some(to_text(&name)),
        None => None,
    }
}

fn header_chars(line: &Vec<char>) -> (r: Option<Vec<char>>)
    ensures
        match r {
            Some(name) => header_of(line@) == Some(name@),
            None => header_of(line@) is None,
        },
{
    let trimmed = trim_chars(line);
    match without_prefix(&trimmed, "---- ") {
        None => None,
        Some(rest) => match without_suffix(&rest, " ----") {
            None => None,
            Some(inner) => match without_suffix(&inner, " stdout") {
                Some(name) => Some(name),
                None => match without_suffix(&inner, " stderr") {
                    Some(name) => Some(name),
                    None => Some(inner),
                },
            },
        },
    }
}

/// A line that ends the block before it.
pub open spec fn ends_block(line: Seq<char>) -> bool {
    ||| header_of(line) is Some
    ||| scan::trim(line) == "failures:"@
    ||| scan::starts_with(scan::trim(line), "test result:"@)
}

fn block_ends_at(line: &Vec<char>) -> (r: bool)
    ensures
        r == ends_block(line@),
{
    if header_chars(line).is_some() {
        return true;
    }
    let trimmed = trim_chars(line);
    let listed = to_chars("failures:");
    let summary = to_chars("test result:");
    same_chars(&trimmed, &listed) || occurs_here(&trimmed, &summary, 0)
}

/// Where the block whose body starts at line `i` ends.
pub open spec fn block_end(ls: Seq<Seq<char>>, i: int) -> int
    decreases ls.len() - i,
{
    if i < 0 || i >= ls.len() || ends_block(ls[i]) {
        i
    } else {
        block_end(ls, i + 1)
    }
}

proof fn lemma_block_end(ls: Seq<Seq<char>>, i: int)
    requires
        0 <= i <= ls.len(),
    ensures
        i <= block_end(ls, i) <= ls.len(),
    decreases ls.len() - i,
{
    if i < ls.len() && !ends_block(ls[i]) {
        lemma_block_end(ls, i + 1);
    }
}

/// Lines without the blank ones at either end.
pub open spec fn trim_blank(ls: Seq<Seq<char>>) -> Seq<Seq<char>>
    decreases ls.len(),
{
    if ls.len() > 0 && scan::blank(ls[0]) {
        trim_blank(ls.skip(1))
    } else if ls.len() > 0 && scan::blank(ls.last()) {
        trim_blank(ls.drop_last())
    } else {
        ls
    }
}

/// The failure blocks from line `i` on.
pub open spec fn blocks_from(ls: Seq<Seq<char>>, i: int) -> Seq<(Seq<char>, Seq<char>)>
    decreases ls.len() - i,
    via blocks_decreases
{
    if i < 0 || i >= ls.len() {
        Seq::empty()
    } else {
        match header_of(ls[i]) {
            Some(name) => {
                let end = block_end(ls, i + 1);
                seq![(name, scan::join(trim_blank(ls.subrange(i + 1, end)), "\n"@))] + blocks_from(
                    ls,
                    end,
                )
            },
            None => blocks_from(ls, i + 1),
        }
    }
}

#[via_fn]
proof fn blocks_decreases(ls: Seq<Seq<char>>, i: int) {
    if 0 <= i < ls.len() {
        lemma_block_end(ls, i + 1);
    }
}

/// The failure blocks of an output.
pub open spec fn failures_of(output: Seq<char>) -> Seq<(Seq<char>, Seq<char>)> {
    blocks_from(scan::lines(output), 0)
}

pub fn parse_failure_blocks(output: &str) -> (r: Vec<TestFailure>)
    ensures
        failure_views(r@) == failures_of(output@),
{
    let ls = split_lines(&to_chars(output));
    let ghost ms = scan::lines(output@);
    let mut out: Vec<TestFailure> = Vec::new();
    let mut i: usize = 0;
    assert(failure_views(out@) + blocks_from(ms, 0) =~= blocks_from(ms, 0));
    while i < ls.len()
        invariant
            scan::views(ls@) == ms,
            i <= ls@.len() == ms.len(),
            failure_views(out@) + blocks_from(ms, i as int) == blocks_from(ms, 0),
        decreases ls@.len() - i,
    {
        assert(ls@[i as int]@ == ms[i as int]);
        match header_chars(&ls[i]) {
            None => {
                i += 1;
            },
            Some(name) => {
                let ghost before = failure_views(out@);
                let mut j: usize = i + 1;
                while j < ls.len() && !block_ends_at(&ls[j])
                    invariant
                        scan::views(ls@) == ms,
                        i < j <= ls@.len() == ms.len(),
                        block_end(ms, i + 1) == block_end(ms, j as int),
                    decreases ls@.len() - j,
                {
                    assert(ls@[j as int]@ == ms[j as int]);
                    j += 1;
                }
                assert(j < ls@.len() ==> ls@[j as int]@ == ms[j as int]);
                assert(j == block_end(ms, i + 1));
                let message = join_body(&ls, i + 1, j);
                let name = to_text(&name);
                let ghost item = (name@, message@);
                out.push(TestFailure { name, message });
                assert(failure_views(out@) =~= before.push(item));
                assert(before.push(item) + blocks_from(ms, j as int) =~= before + (seq![item]
                    + blocks_from(ms, j as int)));
                i = j;
            },
        }
    }
    assert(failure_views(out@) + blocks_from(ms, i as int) =~= failure_views(out@));
    out
}

/// The lines `ls[from..to]` without the blank ones at either end, joined.
fn join_body(ls: &Vec<Vec<char>>, from: usize, to: usize) -> (r: String)
    requires
        from <= to <= ls@.len(),
    ensures
        r@ == scan::join(
            trim_blank(scan::views(ls@).subrange(from as int, to as int)),
            "\n"@,
        ),
{
    let ghost ms = scan::views(ls@);
    let ghost whole = ms.subrange(from as int, to as int);
    let mut a: usize = from;
    let mut b: usize = to;
    while a < b && line_blank(&ls[a])
        invariant
            ms == scan::views(ls@),
            from <= a <= b == to <= ls@.len(),
            trim_blank(ms.subrange(a as int, b as int)) == trim_blank(whole),
        ensures
            from <= a <= b == to,
            a < b ==> !scan::blank(ms[a as int]),
            trim_blank(ms.subrange(a as int, b as int)) == trim_blank(whole),
        decreases b - a,
    {
        assert(ms[a as int] == ls@[a as int]@);
        assert(ms.subrange(a as int, b as int).skip(1) =~= ms.subrange(a + 1, b as int));
        a += 1;
    }
    while b > a && line_blank(&ls[b - 1])
        invariant
            ms == scan::views(ls@),
            from <= a <= b <= to <= ls@.len(),
            a < b ==> !scan::blank(ms[a as int]),
            trim_blank(ms.subrange(a as int, b as int)) == trim_blank(whole),
        decreases b - a,
    {
        assert(ms[b - 1] == ls@[b - 1]@);
        let ghost part = ms.subrange(a as int, b as int);
        assert(part[0] == ms[a as int]);
        assert(part.last() == ms[b - 1]);
        assert(part.drop_last() =~= ms.subrange(a as int, b - 1));
        b -= 1;
    }
    proof {
        let part = ms.subrange(a as int, b as int);
        if a < b {
            assert(part[0] == ms[a as int]);
            assert(part.last() == ms[b - 1]);
            assert(ms[b - 1] == ls@[b - 1]@);
        }
        assert(trim_blank(part) == part);
    }
    let body = vstd::slice::slice_subrange(ls.as_slice(), a, b);
    assert(scan::views(body@) =~= ms.subrange(a as int, b as int));
    join_chars(body, "\n")
}

fn line_blank(line: &Vec<char>) -> (r: bool)
    ensures
        r == scan::blank(line@),
{
    trim_chars(line).len() == 0
}

// --------------------------------------------------------------------- results

/// The sums of the counts of the first `n` lines.
pub open spec fn totals(ls: Seq<Seq<char>>, n: int) -> Counts
    decreases n,
{
    if n <= 0 {
        Counts { passed: 0, failed: 0, ignored: 0 }
    } else {
        let before = totals(ls, n - 1);
        match summary_of(ls[n - 1]) {
            Some(c) => Counts {
                passed: before.passed + c.passed,
                failed: before.failed + c.failed,
                ignored: before.ignored + c.ignored,
            },
            None => before,
        }
    }
}

/// The sums of the counts of an output.
pub open spec fn output_totals(output: Seq<char>) -> Counts {
    let ls = scan::lines(output);
    totals(ls, ls.len() as int)
}

/// A count as a machine number: one that is too large is the largest there is.
pub open spec fn saturated(n: nat) -> nat {
    if n > usize::MAX {
        usize::MAX as nat
    } else {
        n
    }
}

/// What an output says of the run.
pub open spec fn results_of(output: Seq<char>) -> ResultsModel {
    let c = output_totals(output);
    ResultsModel {
        passed: saturated(c.passed),
        failed: saturated(c.failed),
        ignored: saturated(c.ignored),
        failures: failures_of(output),
        exit_ok: true,
        raw_tail: Seq::empty(),
    }
}

fn saturating_sum(a: usize, b: usize) -> (r: usize)
    ensures
        r == saturated((a + b) as nat),
{
    if b > usize::MAX - a {
        usize::MAX
    } else {
        a + b
    }
}

fn sum_counts(output: &str) -> (r: (usize, usize, usize))
    ensures
        ({
            let c = output_totals(output@);
            &&& r.0 == saturated(c.passed)
            &&& r.1 == saturated(c.failed)
            &&& r.2 == saturated(c.ignored)
        }),
{
    let ls = split_lines(&to_chars(output));
    let ghost ms = scan::lines(output@);
    let mut passed: usize = 0;
    let mut failed: usize = 0;
    let mut ignored: usize = 0;
    let mut i: usize = 0;
    while i < ls.len()
        invariant
            ms == scan::lines(output@),
            scan::views(ls@) == ms,
            i <= ls@.len() == ms.len(),
            passed == saturated(totals(ms, i as int).passed),
            failed == saturated(totals(ms, i as int).failed),
            ignored == saturated(totals(ms, i as int).ignored),
        decreases ls@.len() - i,
    {
        assert(ls@[i as int]@ == ms[i as int]);
        let line = to_text(&ls[i]);
        match parse_summary_line(&line) {
            Some((p, f, g)) => {
                passed = saturating_sum(passed, p);
                failed = saturating_sum(failed, f);
                ignored = saturating_sum(ignored, g);
            },
            None => {},
        }
        i += 1;
    }
    (passed, failed, ignored)
}

/// Reads the counts and the failures out of a test run's output.
pub fn parse(kind: TestRunnerKind, output: &str) -> (r: TestResults)
    ensures
        r@ == results_of(output@),
{
    match kind {
        TestRunnerKind::CargoTest => parse_cargo_test(output),
    }
}

fn parse_cargo_test(output: &str) -> (r: TestResults)
    ensures
        r@ == results_of(output@),
{
    let failures = parse_failure_blocks(output);
    let (passed, failed, ignored) = sum_counts(output);
    let r = TestResults {
        passed,
        failed,
        ignored,
        failures,
        exit_ok: true,
        raw_tail: String::new(),
    };
    assert(r@.raw_tail =~= Seq::<char>::empty());
    r
}

/// The first position whose byte offset is at least `b`.
pub open spec fn boundary_from(s: Seq<char>, b: int, i: int) -> int
    decreases s.len() - i,
{
    if i >= s.len() {
        s.len() as int
    } else if text::utf8_len(s.take(i)) >= b {
        i
    } else {
        boundary_from(s, b, i + 1)
    }
}

/// The end of `s`, of at most `max` bytes, starting at a character.
pub open spec fn tail_of(s: Seq<char>, max: int) -> Seq<char> {
    s.skip(boundary_from(s, text::utf8_len(s) - max, 0))
}

/// Keeps the last `max_bytes` of `s`, snapped forward to a character.
pub fn tail(s: &str, max_bytes: usize) -> (r: String)
    ensures
        r@ == tail_of(s@, max_bytes as int),
{
    let total: usize = byte_len(s);
    let cs = to_chars(s);
    assert(s@.take(0) =~= Seq::<char>::empty());
    if total <= max_bytes {
        assert(s@.skip(0) =~= s@);
        assert(s@.len() == 0 ==> s@.skip(s@.len() as int) =~= s@);
        return owned(s);
    }
    let cut: usize = total - max_bytes;
    let mut i: usize = 0;
    let mut at: usize = 0;
    while i < cs.len() && at < cut
        invariant
            cs@ == s@,
            i <= s@.len(),
            at == text::utf8_len(s@.take(i as int)),
            total == text::utf8_len(s@),
            cut == total - max_bytes,
            boundary_from(s@, cut as int, 0) == boundary_from(s@, cut as int, i as int),
        decreases s@.len() - i,
    {
        proof {
            assert(s@.take(i as int).push(s@[i as int]) =~= s@.take(i + 1));
            text::lemma_utf8_len_push(s@.take(i as int), s@[i as int]);
            text::lemma_utf8_len_take(s@, i + 1, s@.len() as int);
            assert(s@.take(s@.len() as int) =~= s@);
        }
        at = at + char_len(cs[i]);
        i += 1;
    }
    assert(s@.subrange(i as int, s@.len() as int) =~= s@.skip(i as int));
    substring(&cs, i, cs.len())
}

/// The outcome of a run, from what its process printed and how it ended.
pub open spec fn outcome_of(stdout: Seq<char>, stderr: Seq<char>, exit_ok: bool) -> ResultsModel {
    ResultsModel {
        exit_ok,
        raw_tail: tail_of(stdout + stderr, RAW_TAIL_MAX_BYTES as int),
        ..results_of(stdout)
    }
}

/// The outcome of a run, from what its process printed and how it ended.
pub fn finish_run(
    kind: TestRunnerKind,
    stdout: &str,
    stderr: &str,
    exit_ok: bool,
) -> (r: TestResults)
    ensures
        r@ == outcome_of(stdout@, stderr@, exit_ok),
{
    let mut results = parse(kind, stdout);
    results.exit_ok = exit_ok;
    let both = join2(stdout, stderr);
    results.raw_tail = tail(&both, RAW_TAIL_MAX_BYTES);
    results
}

// ------------------------------------------------------------------------ laws

/// A tail is never longer than the limit, and it is the whole text when that is
/// short enough.
pub proof fn law_tail_fits(s: Seq<char>, max: int)
    requires
        max >= 0,
    ensures
        text::utf8_len(tail_of(s, max)) <= max,
        text::utf8_len(s) <= max ==> tail_of(s, max) == s,
{
    let cut = text::utf8_len(s) - max;
    lemma_boundary(s, cut, 0);
    let k = boundary_from(s, cut, 0);
    text::lemma_utf8_len_concat(s.take(k), s.skip(k));
    assert(s.take(k) + s.skip(k) =~= s);
    assert(s.take(0) =~= Seq::<char>::empty());
    if cut <= 0 {
        assert(k == 0 || s.len() == 0);
        assert(s.skip(0) =~= s);
    }
}

proof fn lemma_totals_concat(a: Seq<Seq<char>>, b: Seq<Seq<char>>, n: int)
    requires
        0 <= n <= b.len(),
    ensures
        ({
            let (x, y) = (totals(a, a.len() as int), totals(b, n));
            let z = totals(a + b, a.len() + n);
            &&& z.passed == x.passed + y.passed
            &&& z.failed == x.failed + y.failed
            &&& z.ignored == x.ignored + y.ignored
        }),
    decreases n,
{
    if n == 0 {
        lemma_totals_prefix(a, b, a.len() as int);
    } else {
        lemma_totals_concat(a, b, n - 1);
        assert((a + b)[a.len() + n - 1] == b[n - 1]);
    }
}

proof fn lemma_totals_prefix(a: Seq<Seq<char>>, b: Seq<Seq<char>>, n: int)
    requires
        0 <= n <= a.len(),
    ensures
        totals(a + b, n) == totals(a, n),
    decreases n,
{
    if n > 0 {
        lemma_totals_prefix(a, b, n - 1);
        assert((a + b)[n - 1] == a[n - 1]);
    }
}

/// The counts of a run are summed over its test binaries: what two outputs say, one
/// behind the other, is the sum of what each of them says, up to the largest machine
/// number.
pub proof fn law_counts_add_up(a: Seq<char>, b: Seq<char>)
    requires
        a.len() == 0 || a.last() == '\n',
    ensures
        ({
            let (x, y, z) = (results_of(a), results_of(b), results_of(a + b));
            &&& z.passed == saturated(x.passed + y.passed)
            &&& z.failed == saturated(x.failed + y.failed)
            &&& z.ignored == saturated(x.ignored + y.ignored)
            &&& x.passed + y.passed <= usize::MAX ==> z.passed == x.passed + y.passed
            &&& x.failed + y.failed <= usize::MAX ==> z.failed == x.failed + y.failed
            &&& x.ignored + y.ignored <= usize::MAX ==> z.ignored == x.ignored + y.ignored
        }),
{
    scan::lemma_lines_concat(a, b);
    lemma_totals_concat(scan::lines(a), scan::lines(b), scan::lines(b).len() as int);
}

proof fn lemma_boundary(s: Seq<char>, b: int, i: int)
    requires
        0 <= i <= s.len(),
        b <= text::utf8_len(s),
    ensures
        i <= boundary_from(s, b, i) <= s.len(),
        text::utf8_len(s.take(boundary_from(s, b, i))) >= b,
    decreases s.len() - i,
{
    if i >= s.len() {
        assert(s.take(s.len() as int) =~= s);
    } else if text::utf8_len(s.take(i)) < b {
        lemma_boundary(s, b, i + 1);
    }
}

} // verus!
