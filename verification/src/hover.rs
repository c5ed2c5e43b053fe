//! Reading signatures and types out of what a language server says of a symbol,
//! and out of source lines.

use vstd::prelude::*;

use crate::buffer::Buffer;
use crate::rope;
use crate::scan;
use crate::scan::{
    index_until, occurs_here, skip_whitespace, split_lines, text_contains, trim_bounds,
};
use crate::text;
use crate::text::{is_whitespace, substring, to_chars};

pub mod laws;

verus! {

// ------------------------------------------------------------------ signatures

/// A line that opens or closes a fenced block.
pub open spec fn fence(line: Seq<char>) -> bool {
    scan::starts_with(scan::trim_start(line), "```"@)
}

/// A block with one more line in it; lines are joined by blanks.
pub open spec fn with_line(block: Seq<char>, line: Seq<char>) -> Seq<char> {
    if block.len() > 0 {
        block + seq![' '] + scan::trim(line)
    } else {
        scan::trim(line)
    }
}

/// The blocks that the first `n` lines close, and the one they leave open.
pub open spec fn blocks_upto(ls: Seq<Seq<char>>, n: int) -> (Seq<Seq<char>>, Option<Seq<char>>)
    decreases n,
{
    if n <= 0 {
        (Seq::empty(), None)
    } else {
        let (blocks, current) = blocks_upto(ls, n - 1);
        if fence(ls[n - 1]) {
            match current {
                Some(b) => (blocks.push(b), None),
                None => (blocks, Some(Seq::empty())),
            }
        } else {
            match current {
                Some(b) => (blocks, Some(with_line(b, ls[n - 1]))),
                None => (blocks, None),
            }
        }
    }
}

/// The fenced blocks of a text; one that is left open ends with the text.
pub open spec fn blocks_of(ls: Seq<Seq<char>>) -> Seq<Seq<char>> {
    let (blocks, current) = blocks_upto(ls, ls.len() as int);
    match current {
        Some(b) => blocks.push(b),
        None => blocks,
    }
}

/// The last text among the first `n` that is not blank, trimmed.
pub open spec fn last_filled(ts: Seq<Seq<char>>, n: int) -> Option<Seq<char>>
    decreases n,
{
    if n <= 0 {
        None
    } else if scan::trim(ts[n - 1]).len() > 0 {
        Some(scan::trim(ts[n - 1]))
    } else {
        last_filled(ts, n - 1)
    }
}

/// The first text from `i` on that is not blank, trimmed.
pub open spec fn first_filled(ts: Seq<Seq<char>>, i: int) -> Option<Seq<char>>
    decreases ts.len() - i,
{
    if i < 0 || i >= ts.len() {
        None
    } else if scan::trim(ts[i]).len() > 0 {
        Some(scan::trim(ts[i]))
    } else {
        first_filled(ts, i + 1)
    }
}

/// The signature in what a server says: its last fenced block that is not blank,
/// or else its first line that is not.
pub open spec fn signature_of(s: Seq<char>) -> Option<Seq<char>> {
    let ls = scan::lines(s);
    let blocks = blocks_of(ls);
    match last_filled(blocks, blocks.len() as int) {
        Some(b) => Some(b),
        None => first_filled(ls, 0),
    }
}

fn is_fence(line: &[char]) -> (r: bool)
    ensures
        r == fence(line@),
{
    let start: usize = skip_whitespace(line, 0);
    assert(line@.skip(0) =~= line@);
    let ticks = to_chars("```");
    proof {
        let rest = line@.skip(start as int);
        assert(rest == scan::trim_start(line@));
        assert(scan::occurs_at(line@, ticks@, start as int) == scan::occurs_at(rest, ticks@, 0)) by {
            if scan::occurs_at(line@, ticks@, start as int) {
                assert(rest.subrange(0, ticks@.len() as int) =~= line@.subrange(
                    start as int,
                    start + ticks@.len(),
                ));
            }
            if scan::occurs_at(rest, ticks@, 0) {
                assert(rest.subrange(0, ticks@.len() as int) =~= line@.subrange(
                    start as int,
                    start + ticks@.len(),
                ));
            }
        }
    }
    occurs_here(line, &ticks, start)
}

fn add_line(block: &mut Vec<char>, line: &[char])
    ensures
        final(block)@ == with_line(old(block)@, line@),
{
    if block.len() > 0 {
        block.push(' ');
    }
    let mut trimmed = scan::trim_chars(line);
    let ghost (b, t) = (block@, trimmed@);
    block.append(&mut trimmed);
    assert(block@ =~= with_line(old(block)@, line@));
}

fn fenced_blocks(ls: &Vec<Vec<char>>) -> (r: Vec<Vec<char>>)
    ensures
        scan::views(r@) == blocks_of(scan::views(ls@)),
{
    let ghost all = scan::views(ls@);
    let mut blocks: Vec<Vec<char>> = Vec::new();
    let mut open: bool = false;
    let mut current: Vec<char> = Vec::new();
    let mut i: usize = 0;
    assert(scan::views(blocks@) =~= Seq::empty());
    while i < ls.len()
        invariant
            all == scan::views(ls@),
            i <= ls@.len(),
            blocks_upto(all, i as int) == (
                scan::views(blocks@),
                if open {
                    Some(current@)
                } else {
                    None
                },
            ),
        decreases ls@.len() - i,
    {
        assert(all[i as int] == ls@[i as int]@);
        if is_fence(&ls[i]) {
            if open {
                let ghost before = scan::views(blocks@);
                let ghost b = current@;
                blocks.push(current);
                assert(scan::views(blocks@) =~= before.push(b));
                open = false;
            } else {
                open = true;
            }
            current = Vec::new();
            assert(current@ =~= Seq::empty());
        } else if open {
            add_line(&mut current, &ls[i]);
        }
        i += 1;
    }
    if open {
        let ghost before = scan::views(blocks@);
        let ghost b = current@;
        blocks.push(current);
        assert(scan::views(blocks@) =~= before.push(b));
    }
    blocks
}

/// The signature in what a server says.
pub fn extract_signature(said: &str) -> (r: Option<String>)
    ensures
        match r {
            Some(t) => signature_of(said@) == Some(t@),
            None => signature_of(said@) is None,
        },
{
    let ls = split_lines(&to_chars(said));
    let blocks = fenced_blocks(&ls);
    let ghost (all, bs) = (scan::views(ls@), scan::views(blocks@));
    let mut i: usize = blocks.len();
    while i > 0
        invariant
            i <= blocks@.len(),
            bs == scan::views(blocks@),
            all == scan::views(ls@),
            all == scan::lines(said@),
            bs == blocks_of(all),
            last_filled(bs, bs.len() as int) == last_filled(bs, i as int),
        decreases i,
    {
        assert(bs[i - 1] == blocks@[i - 1]@);
        let (a, b) = trim_bounds(&blocks[i - 1]);
        if a < b {
            return Some(substring(&blocks[i - 1], a, b));
        }
        i -= 1;
    }
    let mut k: usize = 0;
    while k < ls.len()
        invariant
            k <= ls@.len(),
            bs == scan::views(blocks@),
            all == scan::views(ls@),
            all == scan::lines(said@),
            bs == blocks_of(all),
            last_filled(bs, bs.len() as int) is None,
            first_filled(all, 0) == first_filled(all, k as int),
        decreases ls@.len() - k,
    {
        assert(all[k as int] == ls@[k as int]@);
        let (a, b) = trim_bounds(&ls[k]);
        if a < b {
            return Some(substring(&ls[k], a, b));
        }
        k += 1;
    }
    None
}

/// A bare path, such as `crate::module::Item`: what a server says of the scope
/// around a symbol.
pub open spec fn path_only(s: Seq<char>) -> bool {
    &&& scan::contains(s, "::"@)
    &&& !scan::contains(s, " "@)
    &&& !scan::contains(s, "<"@)
    &&& !scan::contains(s, "("@)
    &&& !scan::contains(s, "{"@)
}

/// Says whether a signature is a bare path.
pub fn looks_like_path_only(s: &str) -> (r: bool)
    ensures
        r == path_only(s@),
{
    text_contains(s, "::") && !text_contains(s, " ") && !text_contains(s, "<") && !text_contains(
        s,
        "(",
    ) && !text_contains(s, "{")
}

// ---------------------------------------------------------------- source lines

/// A line without a final line feed, and without a carriage return before that.
pub open spec fn bare(line: Seq<char>) -> Seq<char> {
    scan::strip_cr(
        if line.len() > 0 && line.last() == '\n' {
            line.drop_last()
        } else {
            line
        },
    )
}

/// Where a run of colons from `i` on ends.
pub open spec fn past_colons(s: Seq<char>, i: int) -> int
    decreases s.len() - i,
{
    if 0 <= i < s.len() && s[i] == ':' {
        past_colons(s, i + 1)
    } else {
        i
    }
}

/// Where a type ends: at a comma, an equals sign or an opening brace, or with the
/// text.
pub open spec fn type_end(s: Seq<char>, i: int) -> int
    decreases s.len() - i,
{
    if 0 <= i < s.len() && s[i] != ',' && s[i] != '=' && s[i] != '{' {
        type_end(s, i + 1)
    } else {
        i
    }
}

/// The type that a source line gives behind its first run of colons.
pub open spec fn annotated_type(line: Seq<char>) -> Option<Seq<char>> {
    let s = bare(line);
    let colon = scan::until(s, ':');
    let after = past_colons(s, colon);
    if colon >= s.len() || after >= s.len() {
        None
    } else {
        let rest = scan::trim_start(s.skip(after));
        let t = scan::trim_end(rest.take(type_end(rest, 0)));
        if t.len() == 0 {
            None
        } else {
            Some(t)
        }
    }
}

/// The type that a line of a buffer gives.
pub fn type_from_source_line(buf: &Buffer, line: usize) -> (r: Option<String>)
    ensures
        line >= rope::line_count(buf@.text) ==> r is None,
        line < rope::line_count(buf@.text) ==> match r {
            Some(t) => annotated_type(rope::line_text(buf@.text, line as int)) == Some(t@),
            None => annotated_type(rope::line_text(buf@.text, line as int)) is None,
        },
{
    if line >= buf.line_count() {
        return None;
    }
    let mut cs = to_chars(&buf.line(line));
    let ghost whole = cs@;
    if cs.len() > 0 && cs[cs.len() - 1] == '\n' {
        let _ = cs.pop();
        assert(cs@ =~= whole.drop_last());
    }
    let ghost part = cs@;
    if cs.len() > 0 && cs[cs.len() - 1] == '\r' {
        let _ = cs.pop();
        assert(cs@ =~= part.drop_last());
    }
    assert(cs@ == bare(whole));
    assert(cs@.skip(0) =~= cs@);
    let colon: usize = index_until(&cs, ':', 0);
    let mut after: usize = colon;
    while after < cs.len() && cs[after] == ':'
        invariant
            colon <= after <= cs@.len(),
            past_colons(cs@, colon as int) == past_colons(cs@, after as int),
        decreases cs@.len() - after,
    {
        after += 1;
    }
    if colon >= cs.len() || after >= cs.len() {
        return None;
    }
    let start: usize = skip_whitespace(&cs, after);
    let ghost rest = cs@.skip(start as int);
    let mut end: usize = start;
    while end < cs.len() && cs[end] != ',' && cs[end] != '=' && cs[end] != '{'
        invariant
            start <= end <= cs@.len(),
            rest == cs@.skip(start as int),
            type_end(rest, 0) == type_end(rest, end - start),
        decreases cs@.len() - end,
    {
        assert(rest[end - start] == cs@[end as int]);
        end += 1;
    }
    proof {
        if end < cs@.len() {
            assert(rest[end - start] == cs@[end as int]);
        }
        assert(type_end(rest, 0) == end - start);
    }
    let mut stop: usize = end;
    assert(rest.take(end - start) =~= cs@.subrange(start as int, end as int));
    while stop > start && is_whitespace(cs[stop - 1])
        invariant
            start <= stop <= end <= cs@.len(),
            scan::trim_end(cs@.subrange(start as int, end as int)) == scan::trim_end(
                cs@.subrange(start as int, stop as int),
            ),
        decreases stop,
    {
        assert(cs@.subrange(start as int, stop as int).drop_last() =~= cs@.subrange(
            start as int,
            stop - 1,
        ));
        stop -= 1;
    }
    if stop == start {
        None
    } else {
        Some(substring(&cs, start, stop))
    }
}

} // verus!
