//! How messages are told apart in the stream between the editor and a language
//! server: each has headers, an empty line, and a body of the length that the
//! headers give.

use serde_json::Value;
use vstd::prelude::*;
use vstd::utf8::*;

use crate::json;
use crate::json::{parse_value, write_value};
use crate::scan;
use crate::scan::{number, occurs_here, parse_usize, sub_chars, trim_chars};
use crate::text;
use crate::text::{join2, join3, to_chars};

verus! {

/// What is wrong with a message.
#[derive(Clone, Copy, Debug, PartialEq, Eq, Structural)]
pub enum FrameError {
    /// A header is not UTF-8.
    Encoding,
    /// The length is no number.
    BadLength,
    NoLength,
    /// The stream ends within the body.
    Truncated,
    /// The body is not JSON.
    NotJson,
}

/// What a header line leads to.
#[derive(Clone, Copy, Debug, PartialEq, Eq, Structural)]
pub enum HeaderStep {
    More,
    /// The headers are complete; the body has this many bytes.
    Body(usize),
    Bad(FrameError),
}

/// The headers that were read so far.
#[derive(Clone, Copy, Debug, PartialEq, Eq, Structural)]
pub struct Headers {
    pub length: Option<usize>,
}

/// A line without the line breaks at its end.
pub open spec fn unbroken(s: Seq<char>) -> Seq<char>
    decreases s.len(),
{
    if s.len() > 0 && (s.last() == '\r' || s.last() == '\n') {
        unbroken(s.drop_last())
    } else {
        s
    }
}

/// The length that is given in a header, if the header gives one.
pub open spec fn given_length(header: Seq<char>) -> Option<Option<nat>> {
    if scan::starts_with(header, "Content-Length:"@) {
        Some(
            scan::parse_number(
                scan::trim(header.skip("Content-Length:"@.len() as int)),
                usize::MAX as nat,
            ),
        )
    } else {
        None
    }
}

/// What a header line does to the length that is known, and what it leads to.
pub open spec fn header_taken(length: Option<usize>, line: Seq<u8>) -> (Option<usize>, HeaderStep) {
    if !valid_utf8(line) {
        (length, HeaderStep::Bad(FrameError::Encoding))
    } else {
        let header = unbroken(decode_utf8(line));
        if header.len() == 0 {
            match length {
                Some(n) => (length, HeaderStep::Body(n)),
                None => (length, HeaderStep::Bad(FrameError::NoLength)),
            }
        } else {
            match given_length(header) {
                Some(Some(n)) => (Some(n as usize), HeaderStep::More),
                Some(None) => (length, HeaderStep::Bad(FrameError::BadLength)),
                None => (length, HeaderStep::More),
            }
        }
    }
}

/// `std::str::from_utf8`: bytes that are UTF-8 as text.
#[verifier::external_body]
fn decode_bytes(bytes: &[u8]) -> (r: Option<String>)
    ensures
        r is Some <==> valid_utf8(bytes@),
        r is Some ==> r->Some_0@ == decode_utf8(bytes@),
{
    std::str::from_utf8(bytes).ok().map(str::to_string)
}

fn unbroken_len(cs: &Vec<char>) -> (r: usize)
    ensures
        r <= cs@.len(),
        cs@.take(r as int) == unbroken(cs@),
{
    let mut n: usize = cs.len();
    assert(cs@.take(n as int) =~= cs@);
    while n > 0 && (cs[n - 1] == '\r' || cs[n - 1] == '\n')
        invariant
            n <= cs@.len(),
            unbroken(cs@.take(n as int)) == unbroken(cs@),
        decreases n,
    {
        assert(cs@.take(n as int).drop_last() =~= cs@.take(n - 1));
        n -= 1;
    }
    n
}

impl Headers {
    pub fn new() -> (r: Headers)
        ensures
            r.length is None,
    {
        Headers { length: None }
    }

    /// Takes a header line, with its line break.
    pub fn take_line(&mut self, line: &[u8]) -> (r: HeaderStep)
        ensures
            (final(self).length, r) == header_taken(old(self).length, line@),
    {
        let text = match decode_bytes(line) {
            Some(t) => t,
            None => {
                return HeaderStep::Bad(FrameError::Encoding);
            },
        };
        let cs = to_chars(&text);
        let n: usize = unbroken_len(&cs);
        let header = sub_chars(&cs, 0, n);
        assert(header@ =~= unbroken(cs@));
        if n == 0 {
            return match self.length {
                Some(k) => HeaderStep::Body(k),
                None => HeaderStep::Bad(FrameError::NoLength),
            };
        }
        let name = to_chars("Content-Length:");
        if occurs_here(&header, &name, 0) {
            let rest = sub_chars(&header, name.len(), header.len());
            assert(rest@ =~= header@.skip(name@.len() as int));
            let digits = trim_chars(&rest);
            match parse_usize(&digits) {
                Some(k) => {
                    self.length = Some(k);
                },
                None => {
                    return HeaderStep::Bad(FrameError::BadLength);
                },
            }
        }
        HeaderStep::More
    }
}

/// The tree that a body denotes.
pub open spec fn body_json(body: Seq<u8>) -> Option<json::Json> {
    if valid_utf8(body) {
        json::parsed_json(decode_utf8(body))
    } else {
        None
    }
}

/// The value that a body denotes.
pub fn parse_body(body: &[u8]) -> (r: Option<Value>)
    ensures
        (match r {
            Some(v) => Some(json::value_json(v)),
            None => None,
        }) == body_json(body@),
{
    match decode_bytes(body) {
        Some(t) => parse_value(&t),
        None => None,
    }
}

/// Where the line that starts at `at` ends: past its line break, or at the end of
/// the stream.
pub open spec fn line_end(b: Seq<u8>, at: int) -> int
    decreases b.len() - at,
{
    if at >= b.len() {
        b.len() as int
    } else if b[at] == 10 {
        at + 1
    } else {
        line_end(b, at + 1)
    }
}

proof fn lemma_line_end(b: Seq<u8>, at: int)
    requires
        0 <= at < b.len(),
    ensures
        at < line_end(b, at) <= b.len(),
    decreases b.len() - at,
{
    reveal_with_fuel(line_end, 2);
    if b[at] != 10 && at + 1 < b.len() {
        lemma_line_end(b, at + 1);
    }
}

/// The headers from `at` on: `None` where the stream ends before they do, else
/// where the body starts and how long it is.
pub open spec fn headers(b: Seq<u8>, at: int, length: Option<usize>) -> Result<
    Option<(int, usize)>,
    FrameError,
>
    decreases b.len() - at,
    via headers_decreases
{
    if at < 0 || at >= b.len() {
        Ok(None)
    } else {
        let next = line_end(b, at);
        match header_taken(length, b.subrange(at, next)) {
            (_, HeaderStep::Bad(e)) => Err(e),
            (_, HeaderStep::Body(n)) => Ok(Some((next, n))),
            (known, HeaderStep::More) => headers(b, next, known),
        }
    }
}

#[via_fn]
proof fn headers_decreases(b: Seq<u8>, at: int, length: Option<usize>) {
    if 0 <= at < b.len() {
        lemma_line_end(b, at);
    }
}

/// The message that starts at `at`, and where it ends; `None` where the stream is
/// at its end.
pub open spec fn message_at(b: Seq<u8>, at: int) -> Result<Option<(json::Json, int)>, FrameError> {
    match headers(b, at, None) {
        Err(e) => Err(e),
        Ok(None) => Ok(None),
        Ok(Some((start, n))) => if start + n > b.len() {
            Err(FrameError::Truncated)
        } else {
            match body_json(b.subrange(start, start + n)) {
                Some(j) => Ok(Some((j, start + n))),
                None => Err(FrameError::NotJson),
            }
        },
    }
}

fn sub_bytes(b: &Vec<u8>, from: usize, to: usize) -> (r: Vec<u8>)
    requires
        from <= to <= b@.len(),
    ensures
        r@ == b@.subrange(from as int, to as int),
{
    let mut r: Vec<u8> = Vec::new();
    let mut i: usize = from;
    while i < to
        invariant
            from <= i <= to <= b@.len(),
            r@ == b@.subrange(from as int, i as int),
        decreases to - i,
    {
        r.push(b[i]);
        i += 1;
        assert(r@ =~= b@.subrange(from as int, i as int));
    }
    r
}

fn find_line_end(b: &Vec<u8>, at: usize) -> (r: usize)
    requires
        at < b@.len(),
    ensures
        r == line_end(b@, at as int),
{
    let mut i: usize = at;
    while i < b.len()
        invariant
            at <= i <= b@.len(),
            line_end(b@, i as int) == line_end(b@, at as int),
        decreases b@.len() - i,
    {
        if b[i] == 10 {
            return i + 1;
        }
        i += 1;
    }
    i
}

/// Reads the message that starts at `at`, and says where it ends.
pub fn read_message(b: &Vec<u8>, at: usize) -> (r: Result<Option<(Value, usize)>, FrameError>)
    ensures
        match message_at(b@, at as int) {
            Ok(Some((j, end))) => r matches Ok(Some((v, e))) && json::value_json(v) == j && e == end,
            Ok(None) => r matches Ok(None),
            Err(e) => r == Err::<Option<(Value, usize)>, _>(e),
        },
{
    let mut known = Headers::new();
    let mut i: usize = at;
    loop
        invariant
            headers(b@, i as int, known.length) == headers(b@, at as int, None),
        decreases b@.len() - i,
    {
        if i >= b.len() {
            return Ok(None);
        }
        let next: usize = find_line_end(b, i);
        proof {
            lemma_line_end(b@, i as int);
        }
        let line = sub_bytes(b, i, next);
        match known.take_line(&line) {
            HeaderStep::Bad(e) => {
                return Err(e);
            },
            HeaderStep::Body(n) => {
                if n > b.len() - next {
                    return Err(FrameError::Truncated);
                }
                let body = sub_bytes(b, next, next + n);
                return match parse_body(&body) {
                    Some(v) => Ok(Some((v, next + n))),
                    None => Err(FrameError::NotJson),
                };
            },
            HeaderStep::More => {
                i = next;
            },
        }
    }
}

/// The headers of a message whose body is `body`.
pub open spec fn head_of(body: Seq<char>) -> Seq<char> {
    "Content-Length: "@ + scan::decimal(text::utf8_len(body)) + "\r\n\r\n"@
}

/// The bytes of a message with a body.
pub open spec fn framed(body: Seq<char>) -> Seq<u8> {
    encode_utf8(head_of(body) + body)
}

/// The bytes that send a value.
pub fn write_message(v: &Value) -> (r: Vec<u8>)
    ensures
        r@ == framed(json::json_text(json::value_json(*v))),
{
    let body = write_value(v);
    let digits = number(text::byte_len(&body) as u64);
    let head = join3("Content-Length: ", &digits, "\r\n\r\n");
    let all = join2(&head, &body);
    let bytes = all.as_str().as_bytes();
    let mut r: Vec<u8> = Vec::new();
    let mut i: usize = 0;
    while i < bytes.len()
        invariant
            i <= bytes@.len(),
            r@ == bytes@.take(i as int),
        decreases bytes@.len() - i,
    {
        r.push(bytes[i]);
        i += 1;
        assert(r@ =~= bytes@.take(i as int));
    }
    assert(bytes@.take(i as int) =~= bytes@);
    r
}

// ------------------------------------------------------------------------- laws

proof fn lemma_encode_concat(a: Seq<char>, b: Seq<char>)
    ensures
        encode_utf8(a + b) == encode_utf8(a) + encode_utf8(b),
    decreases a.len(),
{
    if a.len() == 0 {
        assert(a + b =~= b);
        assert(encode_utf8(a) =~= Seq::<u8>::empty());
        assert(encode_utf8(a) + encode_utf8(b) =~= encode_utf8(b));
    } else {
        assert((a + b).drop_first() =~= a.drop_first() + b);
        lemma_encode_concat(a.drop_first(), b);
        assert((a + b)[0] == a[0]);
        assert(encode_utf8(a + b) =~= encode_utf8(a) + encode_utf8(b));
    }
}

/// A line of ASCII characters that ends with its only line feed.
spec fn plain_line(s: Seq<char>) -> bool {
    &&& s.len() > 0
    &&& is_ascii_chars(s)
    &&& s.last() == '\n'
    &&& forall|i: int| 0 <= i < s.len() - 1 ==> #[trigger] s[i] != '\n'
}

proof fn lemma_plain_line(b: Seq<u8>, at: int, s: Seq<char>, i: int)
    requires
        plain_line(s),
        0 <= at,
        at + s.len() <= b.len(),
        b.subrange(at, at + s.len()) == encode_utf8(s),
        0 <= i < s.len(),
    ensures
        line_end(b, at + i) == at + s.len(),
    decreases s.len() - i,
{
    is_ascii_chars_encode_utf8(s);
    is_ascii_chars_nat_bound(s);
    let e = encode_utf8(s);
    assert(b[at + i] == b.subrange(at, at + s.len())[i]);
    assert(e[i] == s[i] as u8);
    if i < s.len() - 1 {
        assert(s[i] != '\n');
        lemma_plain_line(b, at, s, i + 1);
    }
}

proof fn lemma_encoded(s: Seq<char>)
    ensures
        valid_utf8(encode_utf8(s)),
        decode_utf8(encode_utf8(s)) == s,
{
    encode_utf8_valid_utf8(s);
    encode_utf8_decode_utf8(s);
}

/// The first line of the headers gives the length.
proof fn lemma_length_line(n: nat)
    requires
        n <= usize::MAX,
    ensures
        plain_line("Content-Length: "@ + scan::decimal(n) + "\r\n"@),
        header_taken(None, encode_utf8("Content-Length: "@ + scan::decimal(n) + "\r\n"@)) == (
            Some(n as usize),
            HeaderStep::More,
        ),
{
    reveal_strlit("Content-Length: ");
    reveal_strlit("Content-Length:");
    reveal_strlit("\r\n");
    let d = scan::decimal(n);
    scan::lemma_decimal(n);
    scan::law_number_round_trips(n, usize::MAX as nat);
    let line = "Content-Length: "@ + d + "\r\n"@;
    let header = "Content-Length: "@ + d;
    assert forall|i: int| 0 <= i < line.len() - 1 implies #[trigger] line[i] != '\n' by {
        if 16 <= i < 16 + d.len() {
            assert(text::ascii_digit(d[i - 16]));
        }
    }
    assert forall|i: int| 0 <= i < line.len() implies #[trigger] line[i] as nat <= 127 by {
        if 16 <= i < 16 + d.len() {
            assert(text::ascii_digit(d[i - 16]));
        }
    }
    assert(is_ascii_chars(line));
    lemma_encoded(line);
    assert(unbroken(line) == header) by {
        reveal_with_fuel(unbroken, 3);
        assert(line.drop_last() =~= header.push('\r'));
        assert(header.push('\r').drop_last() =~= header);
        assert(text::ascii_digit(d.last()));
        assert(header.last() == d.last());
    }
    let rest = header.skip(15);
    assert(rest =~= seq![' '] + d);
    assert(scan::trim(rest) == d) by {
        reveal_with_fuel(scan::trim_start, 3);
        reveal_with_fuel(scan::trim_end, 2);
        assert(rest.drop_first() =~= d);
        assert(text::ascii_digit(d[0]));
        assert(text::ascii_digit(d.last()));
    }
    assert(scan::starts_with(header, "Content-Length:"@)) by {
        assert(header.subrange(0, 15) =~= "Content-Length:"@);
    }
}

/// The line that ends the headers.
proof fn lemma_empty_line(n: usize)
    ensures
        plain_line("\r\n"@),
        header_taken(Some(n), encode_utf8("\r\n"@)) == (Some(n), HeaderStep::Body(n)),
{
    reveal_strlit("\r\n");
    let line = "\r\n"@;
    assert(is_ascii_chars(line));
    lemma_encoded(line);
    reveal_with_fuel(unbroken, 3);
    assert(line.drop_last().drop_last() =~= Seq::<char>::empty());
}

/// A message that was written is read back wherever in the stream it stands: its
/// body is read to its last byte and no further.
pub proof fn law_message_reads_back(before: Seq<u8>, body: Seq<char>, after: Seq<u8>)
    requires
        text::utf8_len(body) <= usize::MAX,
    ensures
        message_at(before + framed(body) + after, before.len() as int) == (match json::parsed_json(
            body,
        ) {
            Some(j) => Ok::<_, FrameError>(Some((j, (before + framed(body)).len() as int))),
            None => Err(FrameError::NotJson),
        }),
{
    let n = text::utf8_len(body);
    let first = "Content-Length: "@ + scan::decimal(n) + "\r\n"@;
    let second = "\r\n"@;
    reveal_strlit("\r\n\r\n");
    reveal_strlit("\r\n");
    assert(head_of(body) + body =~= first + (second + body));
    lemma_encode_concat(first, second + body);
    lemma_encode_concat(second, body);
    text::lemma_encoding_len(body);
    lemma_length_line(n);
    lemma_empty_line(n as usize);
    is_ascii_chars_encode_utf8(first);
    is_ascii_chars_encode_utf8(second);
    let e1 = encode_utf8(first);
    let e2 = encode_utf8(second);
    let e3 = encode_utf8(body);
    assert(framed(body) =~= e1 + (e2 + e3));
    let b = before + framed(body) + after;
    let at = before.len() as int;
    let mid = at + e1.len();
    let start = mid + e2.len();
    assert(b.subrange(at, mid) =~= e1);
    assert(b.subrange(mid, start) =~= e2);
    assert(b.subrange(start, start + n) =~= e3);
    lemma_plain_line(b, at, first, 0);
    lemma_plain_line(b, mid, second, 0);
    reveal_with_fuel(headers, 3);
    lemma_encoded(body);
}

} // verus!
