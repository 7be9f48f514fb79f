//! A deliberately small HTTP/1.1 subset: enough to answer requests, not a
//! general-purpose HTTP stack.
//!
//! The parser reads the request line and the few headers that are acted on
//! (`Content-Length`, `Connection`, `Transfer-Encoding`), and rejects what is not
//! supported. It is a pure function over a byte buffer.

use vstd::prelude::*;
use vstd::slice::{slice_subrange, slice_to_vec};
use vstd::utf8;

use crate::text;

verus! {

/// Largest request head (request line and headers) that is buffered.
pub const MAX_HEAD_BYTES: usize = 8192;

/// The parsed head of an HTTP request.
#[derive(Debug, PartialEq, Eq)]
pub struct RequestHead {
    pub method: String,
    pub path: String,
    /// Whether the connection should be kept open after this request.
    pub keep_alive: bool,
    /// Declared body length (`0` when absent).
    pub content_length: usize,
}

/// Why a head could not (yet) be parsed.
#[derive(Debug, Clone, Copy, PartialEq, Eq, Structural)]
pub enum ParseError {
    /// The head is not fully received yet: read more bytes and retry.
    Incomplete,
    /// Malformed request line or header.
    Malformed,
    /// The head exceeded [`MAX_HEAD_BYTES`].
    HeadTooLarge,
    /// Unsupported framing (chunked transfer-encoding).
    Unsupported,
}

/// The contents of a [`RequestHead`].
pub struct HeadView {
    pub method: Seq<char>,
    pub path: Seq<char>,
    pub keep_alive: bool,
    pub content_length: nat,
}

impl View for RequestHead {
    type V = HeadView;

    open spec fn view(&self) -> HeadView {
        HeadView {
            method: self.method@,
            path: self.path@,
            keep_alive: self.keep_alive,
            content_length: self.content_length as nat,
        }
    }
}

/// The blank line that ends a head.
pub open spec fn blank_line() -> Seq<u8> {
    seq![13u8, 10u8, 13u8, 10u8]
}

/// The line separator of a head.
pub open spec fn crlf() -> Seq<char> {
    seq!['\r', '\n']
}

/// What the headers say about framing.
pub struct Framing {
    pub keep_alive: bool,
    pub content_length: nat,
}

/// The effect of one header line on the framing. Names are compared without
/// regard to ASCII case, and white space around names and values is ignored.
pub open spec fn apply_header(line: Seq<char>, so_far: Framing) -> Result<Framing, ParseError> {
    if line.len() == 0 {
        Ok(so_far)
    } else {
        match text::first_of(line, seq![':']) {
            None => Err(ParseError::Malformed),
            Some(i) => {
                let name = text::lowered(text::trimmed(line.take(i)));
                let value = text::trimmed(line.skip(i + 1));
                if name == "content-length"@ {
                    match text::decimal_of(value) {
                        Some(n) => if n <= usize::MAX {
                            Ok(Framing { content_length: n, ..so_far })
                        } else {
                            Err(ParseError::Malformed)
                        },
                        None => Err(ParseError::Malformed),
                    }
                } else if name == "transfer-encoding"@ && text::lowered(value) == "chunked"@ {
                    Err(ParseError::Unsupported)
                } else if name == "connection"@ && text::lowered(value) == "close"@ {
                    Ok(Framing { keep_alive: false, ..so_far })
                } else if name == "connection"@ && text::lowered(value) == "keep-alive"@ {
                    Ok(Framing { keep_alive: true, ..so_far })
                } else {
                    Ok(so_far)
                }
            },
        }
    }
}

/// The effect of header lines in order; the first one that is refused decides.
pub open spec fn apply_headers(lines: Seq<Seq<char>>, so_far: Framing) -> Result<
    Framing,
    ParseError,
>
    decreases lines.len(),
{
    if lines.len() == 0 {
        Ok(so_far)
    } else {
        match apply_header(lines.first(), so_far) {
            Ok(next) => apply_headers(lines.drop_first(), next),
            Err(e) => Err(e),
        }
    }
}

/// A request line is `METHOD SP PATH SP HTTP/1.x`, with neither of the first two
/// empty.
pub open spec fn request_line_ok(parts: Seq<Seq<char>>) -> bool {
    &&& parts.len() == 3
    &&& parts[0].len() > 0
    &&& parts[1].len() > 0
    &&& "HTTP/1."@.is_prefix_of(parts[2])
}

/// What a head's text, without the blank line, says.
pub open spec fn head_of_text(head: Seq<char>) -> Result<HeadView, ParseError> {
    let lines = text::split_on(head, crlf());
    let parts = text::split_on(lines[0], seq![' ']);
    if !request_line_ok(parts) {
        Err(ParseError::Malformed)
    } else {
        let start = Framing { keep_alive: parts[2] == "HTTP/1.1"@, content_length: 0 };
        match apply_headers(lines.drop_first(), start) {
            Ok(f) => Ok(
                HeadView {
                    method: parts[0],
                    path: parts[1],
                    keep_alive: f.keep_alive,
                    content_length: f.content_length,
                },
            ),
            Err(e) => Err(e),
        }
    }
}

/// What the bytes received so far say: the head and the number of bytes that it
/// occupies, through the blank line, or why there is none.
pub open spec fn head_of(buf: Seq<u8>) -> Result<(HeadView, nat), ParseError> {
    match text::first_of(buf, blank_line()) {
        None => if buf.len() > MAX_HEAD_BYTES {
            Err(ParseError::HeadTooLarge)
        } else {
            Err(ParseError::Incomplete)
        },
        Some(i) => if i + 4 > MAX_HEAD_BYTES {
            Err(ParseError::HeadTooLarge)
        } else if !utf8::valid_utf8(buf.take(i)) {
            Err(ParseError::Malformed)
        } else {
            match head_of_text(utf8::decode_utf8(buf.take(i))) {
                Ok(head) => Ok((head, (i + 4) as nat)),
                Err(e) => Err(e),
            }
        },
    }
}

/// First index of `needle` within `haystack`, if present.
pub fn find_subsequence(haystack: &[u8], needle: &[u8]) -> (found: Option<usize>)
    ensures
        needle@.len() == 0 ==> found is None,
        needle@.len() > 0 ==> found == match text::first_of(haystack@, needle@) {
            Some(i) => Some(i as usize),
            None => None,
        },
        found matches Some(i) ==> text::first_at(haystack@, needle@, i as int),
{
    let n: usize = haystack.len();
    let m: usize = needle.len();
    if m == 0 {
        return None;
    }
    let mut i: usize = 0;
    while m <= n - i
        invariant
            i <= n,
            n == haystack@.len(),
            m == needle@.len(),
            m > 0,
            forall|j: int| 0 <= j < i ==> !#[trigger] text::occurs_at(haystack@, needle@, j),
        decreases n - i,
    {
        let mut k: usize = 0;
        while k < m && haystack[i + k] == needle[k]
            invariant
                k <= m,
                m == needle@.len(),
                m <= n - i,
                n == haystack@.len(),
                forall|j: int| 0 <= j < k ==> haystack@[i + j] == needle@[j],
            decreases m - k,
        {
            k = k + 1;
        }
        if k == m {
            proof {
                assert(haystack@.subrange(i as int, i + m) =~= needle@);
                text::lemma_first_is(haystack@, needle@, i as int);
            }
            return Some(i);
        }
        assert(haystack@.subrange(i as int, i + m)[k as int] != needle@[k as int]);
        i = i + 1;
    }
    assert forall|k: int| !text::first_at(haystack@, needle@, k) by {
        if text::occurs_at(haystack@, needle@, k) {
            assert(k < i);
        }
    }
    None
}

/// The error type of `std`'s UTF-8 validation.
#[verifier::external_type_specification]
#[verifier::external_body]
pub struct ExUtf8Error(core::str::Utf8Error);

/// `std`'s `core::str::from_utf8` accepts exactly the byte strings that are valid
/// UTF-8, and returns the text that they encode.
pub assume_specification[ core::str::from_utf8 ](v: &[u8]) -> (res: Result<
    &str,
    core::str::Utf8Error,
>)
    ensures
        res is Ok <==> utf8::valid_utf8(v@),
        res matches Ok(s) ==> utf8::encode_utf8(s@) == v@,
;

/// Whether `chars` starts with `prefix`.
fn starts_with(chars: &[char], prefix: &str) -> (yes: bool)
    ensures
        yes == prefix@.is_prefix_of(chars@),
{
    let p = text::chars_of(prefix);
    let n: usize = p.len();
    if chars.len() < n {
        return false;
    }
    let front = slice_subrange(chars, 0, n);
    text::spells(front, prefix)
}

/// The running framing while headers are read.
struct Progress {
    keep_alive: bool,
    content_length: usize,
}

impl Progress {
    spec fn model(&self) -> Framing {
        Framing { keep_alive: self.keep_alive, content_length: self.content_length as nat }
    }
}

/// Reads one header line.
fn read_header(line: &[char], so_far: Progress) -> (out: Result<Progress, ParseError>)
    ensures
        out matches Ok(p) ==> apply_header(line@, so_far.model()) == Ok::<Framing, ParseError>(
            p.model(),
        ),
        out matches Err(e) ==> apply_header(line@, so_far.model()) == Err::<Framing, ParseError>(e),
{
    let n: usize = line.len();
    if n == 0 {
        return Ok(so_far);
    }
    let colon: [char; 1] = [':'];
    assert(colon@ =~= seq![':']);
    let at: usize = match text::find_chars(line, &colon) {
        None => {
            return Err(ParseError::Malformed);
        },
        Some(i) => i,
    };
    let raw_name = slice_subrange(line, 0, at);
    let raw_value = slice_subrange(line, at + 1, n);
    assert(raw_name@ =~= line@.take(at as int));
    assert(raw_value@ =~= line@.skip(at + 1));
    let name = text::lower_chars(text::trim_chars(raw_name));
    let value = text::trim_chars(raw_value);
    let folded = text::lower_chars(value);
    if text::spells(&name, "content-length") {
        match text::parse_decimal(value, usize::MAX as u64) {
            Some(v) => Ok(
                Progress { keep_alive: so_far.keep_alive, content_length: v as usize },
            ),
            None => Err(ParseError::Malformed),
        }
    } else if text::spells(&name, "transfer-encoding") && text::spells(&folded, "chunked") {
        Err(ParseError::Unsupported)
    } else if text::spells(&name, "connection") && text::spells(&folded, "close") {
        Ok(Progress { keep_alive: false, content_length: so_far.content_length })
    } else if text::spells(&name, "connection") && text::spells(&folded, "keep-alive") {
        Ok(Progress { keep_alive: true, content_length: so_far.content_length })
    } else {
        Ok(so_far)
    }
}

/// Reads the text of a head.
fn read_head_text(head: &[char]) -> (out: Result<RequestHead, ParseError>)
    ensures
        out matches Ok(h) ==> head_of_text(head@) == Ok::<HeadView, ParseError>(h@),
        out matches Err(e) ==> head_of_text(head@) == Err::<HeadView, ParseError>(e),
{
    let newline: [char; 2] = ['\r', '\n'];
    let space: [char; 1] = [' '];
    assert(newline@ =~= crlf());
    assert(space@ =~= seq![' ']);
    let lines = text::split_chars(head, &newline);
    let ghost model = text::split_on(head@, crlf());
    assert(model.len() > 0);
    assert(lines@[0]@ == model[0]);
    let parts = text::split_chars(&lines[0], &space);
    let ghost fields = text::split_on(model[0], seq![' ']);
    if parts.len() != 3 {
        return Err(ParseError::Malformed);
    }
    assert(parts@[0]@ == fields[0] && parts@[1]@ == fields[1] && parts@[2]@ == fields[2]);
    if parts[0].len() == 0 || parts[1].len() == 0 || !starts_with(&parts[2], "HTTP/1.") {
        return Err(ParseError::Malformed);
    }
    let mut framing = Progress {
        keep_alive: text::spells(&parts[2], "HTTP/1.1"),
        content_length: 0,
    };
    let ghost start = framing.model();
    let count: usize = lines.len();
    let mut i: usize = 1;
    assert(model.skip(1) =~= model.drop_first());
    while i < count
        invariant
            1 <= i <= count,
            count == lines@.len(),
            text::texts(lines@) == model,
            request_line_ok(fields),
            model == text::split_on(head@, crlf()),
            fields == text::split_on(model[0], seq![' ']),
            start == (Framing { keep_alive: fields[2] == "HTTP/1.1"@, content_length: 0 }),
            apply_headers(model.skip(i as int), framing.model()) == apply_headers(
                model.drop_first(),
                start,
            ),
        decreases count - i,
    {
        let ghost rest = model.skip(i as int);
        assert(rest.first() == lines@[i as int]@);
        assert(rest.drop_first() =~= model.skip(i + 1));
        match read_header(&lines[i], framing) {
            Ok(next) => {
                framing = next;
            },
            Err(e) => {
                return Err(e);
            },
        }
        i = i + 1;
    }
    assert(model.skip(count as int) =~= Seq::<Seq<char>>::empty());
    Ok(
        RequestHead {
            method: text::string_of(&parts[0]),
            path: text::string_of(&parts[1]),
            keep_alive: framing.keep_alive,
            content_length: framing.content_length,
        },
    )
}

/// Tries to parse the request head from the front of `buf`. On success returns
/// the head and the number of bytes it occupies, through the blank line.
pub fn parse_head(buf: &[u8]) -> (out: Result<(RequestHead, usize), ParseError>)
    ensures
        out matches Ok((h, len)) ==> head_of(buf@) == Ok::<(HeadView, nat), ParseError>(
            (h@, len as nat),
        ) && len <= buf@.len() && len <= MAX_HEAD_BYTES,
        out matches Err(e) ==> head_of(buf@) == Err::<(HeadView, nat), ParseError>(e),
{
    let blank: [u8; 4] = [13u8, 10u8, 13u8, 10u8];
    assert(blank@ =~= blank_line());
    let received: usize = buf.len();
    let at: usize = match find_subsequence(buf, &blank) {
        Some(i) => i,
        None => {
            return if received > MAX_HEAD_BYTES {
                Err(ParseError::HeadTooLarge)
            } else {
                Err(ParseError::Incomplete)
            };
        },
    };
    let head_end: usize = at + 4;
    if head_end > MAX_HEAD_BYTES {
        return Err(ParseError::HeadTooLarge);
    }
    let head = slice_subrange(buf, 0, at);
    assert(head@ =~= buf@.take(at as int));
    match core::str::from_utf8(head) {
        Err(_) => Err(ParseError::Malformed),
        Ok(s) => {
            proof {
                utf8::encode_utf8_decode_utf8(s@);
            }
            let chars = text::chars_of(s);
            match read_head_text(&chars) {
                Ok(h) => Ok((h, head_end)),
                Err(e) => Err(e),
            }
        },
    }
}

/// The status line and headers of a response.
pub open spec fn response_head(
    status: nat,
    reason: Seq<char>,
    body: Seq<char>,
    keep_alive: bool,
) -> Seq<char> {
    "HTTP/1.1 "@ + text::decimal_text(status) + " "@ + reason
        + "\r\ncontent-type: text/plain; charset=utf-8\r\ncontent-length: "@ + text::decimal_text(
        utf8::encode_utf8(body).len(),
    ) + "\r\nconnection: "@ + (if keep_alive {
        "keep-alive"@
    } else {
        "close"@
    }) + "\r\n\r\n"@
}

/// A full response.
pub open spec fn response_text(
    status: nat,
    reason: Seq<char>,
    body: Seq<char>,
    keep_alive: bool,
    write_body: bool,
) -> Seq<char> {
    if write_body {
        response_head(status, reason, body, keep_alive) + body
    } else {
        response_head(status, reason, body, keep_alive)
    }
}

/// Builds a full HTTP/1.1 response with a `text/plain` body. `content-length` is
/// always the length of `body` in bytes; `write_body` is `false` for `HEAD`
/// responses, which carry the headers of the matching `GET` and no body.
pub fn build_response(
    status: u16,
    reason: &str,
    body: &str,
    keep_alive: bool,
    write_body: bool,
) -> (out: Vec<u8>)
    ensures
        out@ == utf8::encode_utf8(
            response_text(status as nat, reason@, body@, keep_alive, write_body),
        ),
{
    let conn = if keep_alive {
        "keep-alive"
    } else {
        "close"
    };
    let length: usize = body.as_bytes().len();
    let mut s = String::new();
    s.append("HTTP/1.1 ");
    text::push_decimal(&mut s, status as u64);
    s.append(" ");
    s.append(reason);
    s.append("\r\ncontent-type: text/plain; charset=utf-8\r\ncontent-length: ");
    text::push_decimal(&mut s, length as u64);
    s.append("\r\nconnection: ");
    s.append(conn);
    s.append("\r\n\r\n");
    assert(s@ =~= response_head(status as nat, reason@, body@, keep_alive));
    if write_body {
        s.append(body);
    }
    slice_to_vec(s.as_str().as_bytes())
}

/// Texts are encoded one after the other.
proof fn lemma_encode_concat(a: Seq<char>, b: Seq<char>)
    ensures
        utf8::encode_utf8(a + b) == utf8::encode_utf8(a) + utf8::encode_utf8(b),
    decreases a.len(),
{
    if a.len() == 0 {
        assert(a + b =~= b);
        assert(utf8::encode_utf8(a) + utf8::encode_utf8(b) =~= utf8::encode_utf8(b));
    } else {
        let rest = a.drop_first();
        lemma_encode_concat(rest, b);
        assert((a + b).drop_first() =~= rest + b);
        assert(utf8::encode_utf8(a + b) =~= utf8::encode_scalar(a[0] as u32) + utf8::encode_utf8(
            rest + b,
        ));
        assert(utf8::encode_utf8(a) + utf8::encode_utf8(b) =~= utf8::encode_scalar(a[0] as u32) + (
        utf8::encode_utf8(rest) + utf8::encode_utf8(b)));
    }
}

/// The response to `HEAD` is, byte for byte, the response to the matching `GET`
/// without the bytes of its body.
pub proof fn head_response_is_get_response_without_body(
    status: nat,
    reason: Seq<char>,
    body: Seq<char>,
    keep_alive: bool,
)
    ensures
        response_text(status, reason, body, keep_alive, true) == response_text(
            status,
            reason,
            body,
            keep_alive,
            false,
        ) + body,
        utf8::encode_utf8(response_text(status, reason, body, keep_alive, true))
            == utf8::encode_utf8(response_text(status, reason, body, keep_alive, false))
            + utf8::encode_utf8(body),
{
    lemma_encode_concat(response_text(status, reason, body, keep_alive, false), body);
}

/// A position that is first in `buf` stays first when more is appended.
proof fn lemma_first_is_stable(buf: Seq<u8>, more: Seq<u8>, needle: Seq<u8>, i: int)
    requires
        text::first_at(buf, needle, i),
        needle.len() > 0,
    ensures
        text::first_of(buf + more, needle) == Some(i),
{
    let all = buf + more;
    assert(all.subrange(i, i + needle.len()) =~= buf.subrange(i, i + needle.len()));
    assert forall|j: int| 0 <= j < i implies !#[trigger] text::occurs_at(all, needle, j) by {
        assert(all.subrange(j, j + needle.len()) =~= buf.subrange(j, j + needle.len()));
        assert(!text::occurs_at(buf, needle, j));
    }
    text::lemma_first_is(all, needle, i);
}

proof fn lemma_headers_are_never_incomplete(lines: Seq<Seq<char>>, so_far: Framing)
    ensures
        apply_headers(lines, so_far) != Err::<Framing, ParseError>(ParseError::Incomplete),
    decreases lines.len(),
{
    if lines.len() > 0 {
        if let Ok(next) = apply_header(lines.first(), so_far) {
            lemma_headers_are_never_incomplete(lines.drop_first(), next);
        }
    }
}

/// More bytes are asked for exactly while the blank line is missing and the limit
/// is not passed.
pub proof fn incomplete_means_no_blank_line(buf: Seq<u8>)
    ensures
        head_of(buf) == Err::<(HeadView, nat), ParseError>(ParseError::Incomplete) <==> (
        text::first_of(buf, blank_line()) is None && buf.len() <= MAX_HEAD_BYTES),
{
    if let Some(i) = text::first_of(buf, blank_line()) {
        let head = utf8::decode_utf8(buf.take(i));
        let lines = text::split_on(head, crlf());
        let parts = text::split_on(lines[0], seq![' ']);
        let start = Framing { keep_alive: parts[2] == "HTTP/1.1"@, content_length: 0 };
        lemma_headers_are_never_incomplete(lines.drop_first(), start);
    }
}

/// Once the bytes received decide what the head is, further bytes do not change
/// it: a head is read the same however it is cut into reads, and whatever is
/// pipelined behind it.
pub proof fn head_is_stable_under_more_input(buf: Seq<u8>, more: Seq<u8>)
    requires
        head_of(buf) != Err::<(HeadView, nat), ParseError>(ParseError::Incomplete),
    ensures
        head_of(buf + more) == head_of(buf),
{
    let all = buf + more;
    match text::first_of(buf, blank_line()) {
        Some(i) => {
            assert(text::first_at(buf, blank_line(), i));
            lemma_first_is_stable(buf, more, blank_line(), i);
            assert(all.take(i) =~= buf.take(i));
        },
        None => {
            assert(buf.len() > MAX_HEAD_BYTES);
            if let Some(i) = text::first_of(all, blank_line()) {
                assert(text::first_at(all, blank_line(), i));
                if i + 4 <= buf.len() {
                    assert(buf.subrange(i, i + 4) =~= all.subrange(i, i + 4));
                    assert forall|j: int| 0 <= j < i implies !#[trigger] text::occurs_at(
                        buf,
                        blank_line(),
                        j,
                    ) by {
                        assert(buf.subrange(j, j + 4) =~= all.subrange(j, j + 4));
                        assert(!text::occurs_at(all, blank_line(), j));
                    }
                    assert(text::first_at(buf, blank_line(), i));
                }
            }
        },
    }
}

/// A head depends on no byte behind its blank line, and it ends within the limit.
pub proof fn head_depends_on_its_own_bytes_only(buf: Seq<u8>)
    requires
        head_of(buf) is Ok,
    ensures
        head_of(buf)->Ok_0.1 <= buf.len(),
        4 <= head_of(buf)->Ok_0.1 <= MAX_HEAD_BYTES,
        head_of(buf.take(head_of(buf)->Ok_0.1 as int)) == head_of(buf),
{
    let i = text::first_of(buf, blank_line()).unwrap();
    assert(text::first_at(buf, blank_line(), i));
    let front = buf.take(i + 4);
    assert(front.subrange(i, i + 4) =~= buf.subrange(i, i + 4));
    assert forall|j: int| 0 <= j < i implies !#[trigger] text::occurs_at(
        front,
        blank_line(),
        j,
    ) by {
        assert(front.subrange(j, j + 4) =~= buf.subrange(j, j + 4));
        assert(!text::occurs_at(buf, blank_line(), j));
    }
    text::lemma_first_is(front, blank_line(), i);
    assert(front.take(i) =~= buf.take(i));
}

/// A line of a head: not empty, and without carriage returns.
pub open spec fn clean(line: Seq<char>) -> bool {
    line.len() > 0 && (forall|i: int| 0 <= i < line.len() ==> #[trigger] line[i] != '\r')
}

/// Every line is one of a head, and there is at least the request line.
pub open spec fn all_clean(lines: Seq<Seq<char>>) -> bool {
    lines.len() > 0 && (forall|i: int| 0 <= i < lines.len() ==> clean(#[trigger] lines[i]))
}

/// The lines of a head as they are sent: each but the last followed by a line end, then
/// the blank line, then whatever follows the head.
pub open spec fn on_the_wire(lines: Seq<Seq<char>>, rest: Seq<u8>) -> Seq<u8> {
    utf8::encode_utf8(text::joined_with(lines, seq!['\r', '\n'])) + seq![13u8, 10u8, 13u8, 10u8]
        + rest
}

proof fn lemma_scalar_bytes(c: char)
    requires
        c != '\r',
    ensures
        utf8::encode_scalar(c as u32).len() > 0,
        forall|k: int|
            0 <= k < utf8::encode_scalar(c as u32).len() ==> #[trigger] utf8::encode_scalar(
                c as u32,
            )[k] != 13u8,
{
    let v = c as u32;
    assert(v <= 0x7f ==> ((v & 0x7f) as u8) as u32 == v) by (bit_vector);
    assert(forall|x: u8| #[trigger] (0x80u8 | x) >= 0x80u8) by (bit_vector);
    assert(forall|x: u8| #[trigger] (0xC0u8 | x) >= 0x80u8) by (bit_vector);
    assert(forall|x: u8| #[trigger] (0xE0u8 | x) >= 0x80u8) by (bit_vector);
    assert(forall|x: u8| #[trigger] (0xF0u8 | x) >= 0x80u8) by (bit_vector);
}

/// A text without carriage returns has none among its bytes.
proof fn lemma_clean_bytes(s: Seq<char>)
    requires
        forall|i: int| 0 <= i < s.len() ==> #[trigger] s[i] != '\r',
    ensures
        forall|k: int|
            0 <= k < utf8::encode_utf8(s).len() ==> #[trigger] utf8::encode_utf8(s)[k] != 13u8,
        s.len() > 0 ==> utf8::encode_utf8(s).len() > 0,
    decreases s.len(),
{
    if s.len() > 0 {
        let first = utf8::encode_scalar(s[0] as u32);
        let rest = s.drop_first();
        lemma_scalar_bytes(s[0]);
        assert forall|i: int| 0 <= i < rest.len() implies #[trigger] rest[i] != '\r' by {
            assert(rest[i] == s[i + 1]);
        }
        lemma_clean_bytes(rest);
        assert forall|k: int| 0 <= k < utf8::encode_utf8(s).len() implies #[trigger] utf8::encode_utf8(
            s,
        )[k] != 13u8 by {
            if k < first.len() {
                assert(utf8::encode_utf8(s)[k] == first[k]);
            } else {
                assert(utf8::encode_utf8(s)[k] == utf8::encode_utf8(rest)[k - first.len()]);
            }
        }
    }
}

proof fn lemma_line_end_bytes()
    ensures
        utf8::encode_utf8(seq!['\r', '\n']) == seq![13u8, 10u8],
{
    let s = seq!['\r', '\n'];
    assert(utf8::is_ascii_chars(s));
    utf8::is_ascii_chars_encode_utf8(s);
    assert(utf8::encode_utf8(s)[0] == s[0] as u8);
    assert(utf8::encode_utf8(s)[1] == s[1] as u8);
    assert(utf8::encode_utf8(s) =~= seq![13u8, 10u8]);
}

/// A line in front does not change where the first blank line is.
proof fn lemma_line_before_blank(b: Seq<u8>, after: Seq<u8>, k: int)
    requires
        forall|i: int| 0 <= i < b.len() ==> #[trigger] b[i] != 13u8,
        after.len() > 0,
        after[0] != 13u8,
        text::first_at(after, seq![13u8, 10u8, 13u8, 10u8], k),
    ensures
        text::first_at(
            b + seq![13u8, 10u8] + after,
            seq![13u8, 10u8, 13u8, 10u8],
            b.len() + 2 + k,
        ),
{
    let blank = seq![13u8, 10u8, 13u8, 10u8];
    let whole = b + seq![13u8, 10u8] + after;
    let n = b.len() as int;
    assert(blank.len() == 4);
    assert(whole.subrange(n + 2 + k, n + 2 + k + 4) =~= after.subrange(k, k + 4));
    assert forall|j: int| 0 <= j < n + 2 + k implies !#[trigger] text::occurs_at(
        whole,
        blank,
        j,
    ) by {
        if text::occurs_at(whole, blank, j) {
            let here = whole.subrange(j, j + 4);
            assert(here[0] == whole[j] && here[2] == whole[j + 2]);
            if j < n {
                assert(whole[j] == b[j]);
            } else if j == n {
                assert(whole[j + 2] == after[0]);
            } else if j == n + 1 {
                assert(whole[j] == 10u8);
            } else {
                assert(here =~= after.subrange(j - n - 2, j - n + 2));
                assert(text::occurs_at(after, blank, j - n - 2));
            }
        }
    }
}

/// A last line is followed by the first blank line.
proof fn lemma_last_line_before_blank(b: Seq<u8>, rest: Seq<u8>)
    requires
        forall|i: int| 0 <= i < b.len() ==> #[trigger] b[i] != 13u8,
    ensures
        text::first_at(
            b + seq![13u8, 10u8, 13u8, 10u8] + rest,
            seq![13u8, 10u8, 13u8, 10u8],
            b.len() as int,
        ),
{
    let blank = seq![13u8, 10u8, 13u8, 10u8];
    let whole = b + blank + rest;
    let at = b.len() as int;
    assert(whole.subrange(at, at + 4) =~= blank);
    assert forall|j: int| 0 <= j < at implies !#[trigger] text::occurs_at(whole, blank, j) by {
        if text::occurs_at(whole, blank, j) {
            assert(whole.subrange(j, j + 4)[0] == b[j]);
        }
    }
}

/// What is sent starts with the bytes of its first line.
proof fn lemma_wire_starts_with_its_first_line(lines: Seq<Seq<char>>, rest: Seq<u8>)
    requires
        all_clean(lines),
    ensures
        on_the_wire(lines, rest).len() > 0,
        on_the_wire(lines, rest)[0] != 13u8,
{
    let end = seq!['\r', '\n'];
    assert(clean(lines[0]));
    lemma_clean_bytes(lines[0]);
    let all = text::joined_with(lines, end);
    let more = if lines.len() > 1 {
        end + text::joined_with(lines.drop_first(), end)
    } else {
        Seq::empty()
    };
    assert(all =~= lines[0] + more);
    lemma_encode_concat(lines[0], more);
    assert(on_the_wire(lines, rest)[0] == utf8::encode_utf8(lines[0])[0]);
}

/// The blank line that ends a head is the first blank line in what is sent.
proof fn lemma_blank_line_ends_the_head(lines: Seq<Seq<char>>, rest: Seq<u8>)
    requires
        all_clean(lines),
    ensures
        text::first_at(
            on_the_wire(lines, rest),
            seq![13u8, 10u8, 13u8, 10u8],
            utf8::encode_utf8(text::joined_with(lines, seq!['\r', '\n'])).len() as int,
        ),
    decreases lines.len(),
{
    let end = seq!['\r', '\n'];
    let b = utf8::encode_utf8(lines[0]);
    assert(clean(lines[0]));
    lemma_clean_bytes(lines[0]);
    if lines.len() == 1 {
        lemma_last_line_before_blank(b, rest);
    } else {
        let others = lines.drop_first();
        assert forall|i: int| 0 <= i < others.len() implies clean(#[trigger] others[i]) by {
            assert(others[i] == lines[i + 1]);
        }
        lemma_blank_line_ends_the_head(others, rest);
        lemma_wire_starts_with_its_first_line(others, rest);
        let tail = text::joined_with(others, end);
        let after = on_the_wire(others, rest);
        lemma_encode_concat(lines[0] + end, tail);
        lemma_encode_concat(lines[0], end);
        lemma_line_end_bytes();
        assert(on_the_wire(lines, rest) =~= b + seq![13u8, 10u8] + after);
        lemma_line_before_blank(b, after, utf8::encode_utf8(tail).len() as int);
    }
}

/// The lines of a head are found again in its text.
proof fn lemma_lines_are_found(lines: Seq<Seq<char>>)
    requires
        all_clean(lines),
    ensures
        text::split_on(text::joined_with(lines, crlf()), crlf()) == lines,
{
    assert forall|i: int, j: int|
        0 <= i < lines.len() && 0 <= j < lines[i].len() implies #[trigger] lines[i][j]
        != crlf()[0] by {
        assert(clean(lines[i]));
    }
    text::joined_pieces_are_split_again(lines, crlf());
}

/// What the bytes of a head say, followed by a blank line and whatever comes behind it.
proof fn lemma_head_of_bytes(all: Seq<char>, bytes: Seq<u8>, whole: Seq<u8>)
    requires
        bytes == utf8::encode_utf8(all),
        text::first_of(whole, blank_line()) == Some(bytes.len() as int),
        bytes.len() <= whole.len(),
        whole.take(bytes.len() as int) == bytes,
    ensures
        bytes.len() + 4 > MAX_HEAD_BYTES ==> head_of(whole) == Err::<(HeadView, nat), ParseError>(
            ParseError::HeadTooLarge,
        ),
        bytes.len() + 4 <= MAX_HEAD_BYTES ==> head_of(whole) == match head_of_text(all) {
            Ok(h) => Ok::<(HeadView, nat), ParseError>((h, (bytes.len() + 4) as nat)),
            Err(e) => Err(e),
        },
{
    utf8::encode_utf8_valid_utf8(all);
    utf8::encode_utf8_decode_utf8(all);
}

/// What is sent is read as the lines that it was made of.
#[verifier::rlimit(40)]
proof fn lemma_wire(lines: Seq<Seq<char>>, rest: Seq<u8>)
    requires
        all_clean(lines),
    ensures
        ({
            let all = text::joined_with(lines, crlf());
            let size = utf8::encode_utf8(all).len() + 4;
            &&& text::split_on(all, crlf()) == lines
            &&& on_the_wire(lines, rest).len() == size + rest.len()
            &&& size > MAX_HEAD_BYTES ==> head_of(on_the_wire(lines, rest)) == Err::<
                (HeadView, nat),
                ParseError,
            >(ParseError::HeadTooLarge)
            &&& size <= MAX_HEAD_BYTES ==> head_of(on_the_wire(lines, rest)) == match head_of_text(
                all,
            ) {
                Ok(h) => Ok::<(HeadView, nat), ParseError>((h, size as nat)),
                Err(e) => Err(e),
            }
        }),
{
    let all = text::joined_with(lines, crlf());
    let bytes = utf8::encode_utf8(all);
    let whole = on_the_wire(lines, rest);
    lemma_lines_are_found(lines);
    lemma_blank_line_ends_the_head(lines, rest);
    text::lemma_first_is(whole, blank_line(), bytes.len() as int);
    assert(whole.take(bytes.len() as int) =~= bytes);
    lemma_head_of_bytes(all, bytes, whole);
}

/// Header lines take effect one after the other.
proof fn lemma_headers_append(a: Seq<Seq<char>>, b: Seq<Seq<char>>, so_far: Framing)
    ensures
        apply_headers(a + b, so_far) == match apply_headers(a, so_far) {
            Ok(next) => apply_headers(b, next),
            Err(e) => Err(e),
        },
    decreases a.len(),
{
    if a.len() == 0 {
        assert(a + b =~= b);
    } else {
        assert((a + b).first() == a.first());
        assert((a + b).drop_first() =~= a.drop_first() + b);
        if let Ok(next) = apply_header(a.first(), so_far) {
            lemma_headers_append(a.drop_first(), b, next);
        }
    }
}

/// A header line is cut at its first colon.
proof fn lemma_header_line(name: Seq<char>, value: Seq<char>)
    requires
        forall|i: int| 0 <= i < name.len() ==> #[trigger] name[i] != ':',
    ensures
        ({
            let line = name + seq![':'] + value;
            &&& line.len() > 0
            &&& text::first_of(line, seq![':']) == Some(name.len() as int)
            &&& line.take(name.len() as int) == name
            &&& line.skip(name.len() as int + 1) == value
        }),
{
    let line = name + seq![':'] + value;
    let at = name.len() as int;
    assert(line.subrange(at, at + 1) =~= seq![':']);
    assert forall|j: int| 0 <= j < at implies !#[trigger] text::occurs_at(
        line,
        seq![':'],
        j,
    ) by {
        if text::occurs_at(line, seq![':'], j) {
            assert(line.subrange(j, j + 1)[0] == name[j]);
        }
    }
    text::lemma_first_is(line, seq![':'], at);
    assert(line.take(at) =~= name);
    assert(line.skip(at + 1) =~= value);
}

/// One line more among the headers takes effect where it stands.
proof fn lemma_headers_with_more(
    before: Seq<Seq<char>>,
    line: Seq<char>,
    after: Seq<Seq<char>>,
    start: Framing,
)
    requires
        before.len() > 0,
    ensures
        apply_headers((before + seq![line] + after).drop_first(), start) == match apply_headers(
            before.drop_first(),
            start,
        ) {
            Ok(a) => match apply_header(line, a) {
                Ok(b) => apply_headers(after, b),
                Err(e) => Err(e),
            },
            Err(e) => Err(e),
        },
        apply_headers((before + after).drop_first(), start) == match apply_headers(
            before.drop_first(),
            start,
        ) {
            Ok(a) => apply_headers(after, a),
            Err(e) => Err(e),
        },
{
    let more = seq![line] + after;
    assert((before + seq![line] + after).drop_first() =~= before.drop_first() + more);
    assert((before + after).drop_first() =~= before.drop_first() + after);
    lemma_headers_append(before.drop_first(), more, start);
    lemma_headers_append(before.drop_first(), after, start);
    assert(more.drop_first() =~= after);
    assert(more.first() == line);
}

proof fn lemma_clean_with_more(before: Seq<Seq<char>>, line: Seq<char>, after: Seq<Seq<char>>)
    requires
        all_clean(before),
        clean(line),
        forall|i: int| 0 <= i < after.len() ==> clean(#[trigger] after[i]),
    ensures
        all_clean(before + seq![line] + after),
        all_clean(before + after),
{
    let with = before + seq![line] + after;
    let without = before + after;
    assert forall|i: int| 0 <= i < with.len() implies clean(#[trigger] with[i]) by {
        if i < before.len() {
            assert(with[i] == before[i]);
        } else if i > before.len() {
            assert(with[i] == after[i - before.len() - 1]);
        }
    }
    assert forall|i: int| 0 <= i < without.len() implies clean(#[trigger] without[i]) by {
        if i < before.len() {
            assert(without[i] == before[i]);
        } else {
            assert(without[i] == after[i - before.len()]);
        }
    }
}

/// What the lines of a head, sent within the limit, are read as.
proof fn lemma_head_of_lines(lines: Seq<Seq<char>>, rest: Seq<u8>)
    requires
        all_clean(lines),
        on_the_wire(lines, rest).len() - rest.len() <= 8192,
    ensures
        ({
            let parts = text::split_on(lines[0], seq![' ']);
            let start = Framing { keep_alive: parts[2] == "HTTP/1.1"@, content_length: 0 };
            let size = (on_the_wire(lines, rest).len() - rest.len()) as nat;
            head_of(on_the_wire(lines, rest)) == if !request_line_ok(parts) {
                Err::<(HeadView, nat), ParseError>(ParseError::Malformed)
            } else {
                match apply_headers(lines.drop_first(), start) {
                    Ok(f) => Ok(
                        (
                            HeadView {
                                method: parts[0],
                                path: parts[1],
                                keep_alive: f.keep_alive,
                                content_length: f.content_length,
                            },
                            size,
                        ),
                    ),
                    Err(e) => Err(e),
                }
            }
        }),
{
    lemma_wire(lines, rest);
}

/// What a head is read as with one line more and without it.
proof fn lemma_head_with_more(
    before: Seq<Seq<char>>,
    line: Seq<char>,
    after: Seq<Seq<char>>,
    rest: Seq<u8>,
)
    requires
        all_clean(before),
        clean(line),
        forall|i: int| 0 <= i < after.len() ==> clean(#[trigger] after[i]),
        on_the_wire(before + seq![line] + after, rest).len() - rest.len() <= 8192,
    ensures
        ({
            let parts = text::split_on(before[0], seq![' ']);
            let start = Framing { keep_alive: parts[2] == "HTTP/1.1"@, content_length: 0 };
            let w = on_the_wire(before + seq![line] + after, rest);
            let o = on_the_wire(before + after, rest);
            let first = apply_headers(before.drop_first(), start);
            &&& !request_line_ok(parts) ==> head_of(w) == Err::<(HeadView, nat), ParseError>(
                ParseError::Malformed,
            ) && head_of(o) == Err::<(HeadView, nat), ParseError>(ParseError::Malformed)
            &&& request_line_ok(parts) ==> head_of(w) == framed(
                parts,
                match first {
                    Ok(a) => match apply_header(line, a) {
                        Ok(b) => apply_headers(after, b),
                        Err(e) => Err(e),
                    },
                    Err(e) => Err(e),
                },
                (w.len() - rest.len()) as nat,
            )
            &&& request_line_ok(parts) ==> head_of(o) == framed(
                parts,
                match first {
                    Ok(a) => apply_headers(after, a),
                    Err(e) => Err(e),
                },
                (o.len() - rest.len()) as nat,
            )
        }),
{
    let parts = text::split_on(before[0], seq![' ']);
    let start = Framing { keep_alive: parts[2] == "HTTP/1.1"@, content_length: 0 };
    let with = before + seq![line] + after;
    let without = before + after;
    lemma_clean_with_more(before, line, after);
    lemma_joined_size(before, line, after);
    assert(with[0] == before[0] && without[0] == before[0]);
    lemma_head_of_lines(with, rest);
    lemma_head_of_lines(without, rest);
    lemma_headers_with_more(before, line, after, start);
}

/// A head with this request line and this framing.
pub open spec fn framed(
    parts: Seq<Seq<char>>,
    framing: Result<Framing, ParseError>,
    size: nat,
) -> Result<(HeadView, nat), ParseError> {
    match framing {
        Ok(f) => Ok(
            (
                HeadView {
                    method: parts[0],
                    path: parts[1],
                    keep_alive: f.keep_alive,
                    content_length: f.content_length,
                },
                size,
            ),
        ),
        Err(e) => Err(e),
    }
}

/// One line more makes a head longer.
proof fn lemma_joined_size(before: Seq<Seq<char>>, line: Seq<char>, after: Seq<Seq<char>>)
    requires
        before.len() > 0,
    ensures
        utf8::encode_utf8(text::joined_with(before + after, crlf())).len() <= utf8::encode_utf8(
            text::joined_with(before + seq![line] + after, crlf()),
        ).len(),
    decreases before.len(),
{
    let with = before + seq![line] + after;
    let without = before + after;
    let end = crlf();
    if before.len() == 1 {
        assert(with.drop_first() =~= seq![line] + after);
        assert(without.drop_first() =~= after);
        let tail = text::joined_with(seq![line] + after, end);
        lemma_encode_concat(before[0] + end, tail);
        lemma_encode_concat(before[0], end);
        if after.len() == 0 {
            assert(text::joined_with(without, end) =~= before[0]);
        } else {
            assert((seq![line] + after).drop_first() =~= after);
            let last = text::joined_with(after, end);
            lemma_encode_concat(before[0] + end, last);
            lemma_encode_concat(line + end, last);
        }
    } else {
        let b = before.drop_first();
        assert(with.drop_first() =~= b + seq![line] + after);
        assert(without.drop_first() =~= b + after);
        lemma_joined_size(b, line, after);
        lemma_encode_concat(before[0] + end, text::joined_with(b + seq![line] + after, end));
        lemma_encode_concat(before[0] + end, text::joined_with(b + after, end));
    }
}

/// The heads say the same.
pub open spec fn same_head(a: RequestHead, b: RequestHead) -> bool {
    &&& a.method@ == b.method@
    &&& a.path@ == b.path@
    &&& a.keep_alive == b.keep_alive
    &&& a.content_length == b.content_length
}

/// Headers that are not acted on are ignored, whatever their values hold, colons
/// included: with such a line anywhere among the headers, a request is read as without
/// it, or refused for the same reason.
pub proof fn other_headers_change_nothing(
    before: Seq<Seq<char>>,
    name: Seq<char>,
    value: Seq<char>,
    after: Seq<Seq<char>>,
    rest: Seq<u8>,
    with: &[u8],
    without: &[u8],
    out_with: Result<(RequestHead, usize), ParseError>,
    out_without: Result<(RequestHead, usize), ParseError>,
)
    requires
        all_clean(before),
        clean(name + seq![':'] + value),
        forall|i: int| 0 <= i < name.len() ==> #[trigger] name[i] != ':',
        forall|i: int| 0 <= i < after.len() ==> clean(#[trigger] after[i]),
        text::lowered(text::trimmed(name)) != "content-length"@,
        text::lowered(text::trimmed(name)) != "transfer-encoding"@,
        text::lowered(text::trimmed(name)) != "connection"@,
        with@ == on_the_wire(before + seq![name + seq![':'] + value] + after, rest),
        without@ == on_the_wire(before + after, rest),
        with@.len() - rest.len() <= 8192,
        call_ensures(parse_head, (with,), out_with),
        call_ensures(parse_head, (without,), out_without),
    ensures
        out_with is Ok <==> out_without is Ok,
        out_with is Ok ==> out_with->Ok_0.0.method@ == out_without->Ok_0.0.method@
            && out_with->Ok_0.0.path@ == out_without->Ok_0.0.path@ && out_with->Ok_0.0.keep_alive
            == out_without->Ok_0.0.keep_alive && out_with->Ok_0.0.content_length
            == out_without->Ok_0.0.content_length,
        out_with is Ok ==> out_with->Ok_0.1 == with@.len() - rest.len(),
        out_with is Err ==> out_with->Err_0 == out_without->Err_0,
{
    lemma_header_line(name, value);
    lemma_head_with_more(before, name + seq![':'] + value, after, rest);
}

/// The last `Content-Length`, in whatever case and with whatever white space, is the
/// length of the body; a value that is no number, or one that cannot be counted, makes
/// the head malformed. Nothing else of the head changes.
pub proof fn content_length_is_read(
    lines: Seq<Seq<char>>,
    name: Seq<char>,
    value: Seq<char>,
    rest: Seq<u8>,
    n: nat,
    with: &[u8],
    without: &[u8],
    out_with: Result<(RequestHead, usize), ParseError>,
    out_without: Result<(RequestHead, usize), ParseError>,
)
    requires
        all_clean(lines),
        clean(name + seq![':'] + value),
        forall|i: int| 0 <= i < name.len() ==> #[trigger] name[i] != ':',
        text::lowered(text::trimmed(name)) == "content-length"@,
        with@ == on_the_wire(lines + seq![name + seq![':'] + value], rest),
        without@ == on_the_wire(lines, rest),
        with@.len() - rest.len() <= 8192,
        call_ensures(parse_head, (with,), out_with),
        call_ensures(parse_head, (without,), out_without),
        out_without is Ok,
    ensures
        out_with is Ok <==> text::decimal_of(text::trimmed(value)) is Some && text::decimal_of(
            text::trimmed(value),
        )->0 <= usize::MAX,
        out_with is Ok ==> text::decimal_of(text::trimmed(value)) == Some(
            out_with->Ok_0.0.content_length as nat,
        ),
        text::trimmed(value) == text::decimal_text(n) && n <= usize::MAX ==> {
            &&& out_with is Ok
            &&& out_with->Ok_0.0.content_length == n
            &&& out_with->Ok_0.0.method@ == out_without->Ok_0.0.method@
            &&& out_with->Ok_0.0.path@ == out_without->Ok_0.0.path@
            &&& out_with->Ok_0.0.keep_alive == out_without->Ok_0.0.keep_alive
        },
        text::trimmed(value) == text::decimal_text(n) && n > usize::MAX ==> out_with == Err::<
            (RequestHead, usize),
            ParseError,
        >(ParseError::Malformed),
        text::trimmed(value).len() == 0 || (exists|i: int|
            0 <= i < text::trimmed(value).len() && !('0' <= #[trigger] text::trimmed(value)[i]
                <= '9') && !(i == 0 && text::trimmed(value)[i] == '+')) ==> out_with == Err::<
            (RequestHead, usize),
            ParseError,
        >(ParseError::Malformed),
{
    let line = name + seq![':'] + value;
    let none = Seq::<Seq<char>>::empty();
    lemma_header_line(name, value);
    assert(lines + seq![line] + none =~= lines + seq![line]);
    assert(lines + none =~= lines);
    lemma_head_with_more(lines, line, none, rest);
    text::decimal_round_trips(n);
    text::other_texts_are_no_decimals(text::trimmed(value));
}

/// The last `Connection` header that says `close` or `keep-alive`, in whatever case,
/// decides whether the connection stays open; any other value changes nothing, and
/// nothing else of the head changes.
pub proof fn connection_header_decides(
    lines: Seq<Seq<char>>,
    name: Seq<char>,
    value: Seq<char>,
    rest: Seq<u8>,
    with: &[u8],
    without: &[u8],
    out_with: Result<(RequestHead, usize), ParseError>,
    out_without: Result<(RequestHead, usize), ParseError>,
)
    requires
        all_clean(lines),
        clean(name + seq![':'] + value),
        forall|i: int| 0 <= i < name.len() ==> #[trigger] name[i] != ':',
        text::lowered(text::trimmed(name)) == "connection"@,
        with@ == on_the_wire(lines + seq![name + seq![':'] + value], rest),
        without@ == on_the_wire(lines, rest),
        with@.len() - rest.len() <= 8192,
        call_ensures(parse_head, (with,), out_with),
        call_ensures(parse_head, (without,), out_without),
        out_without is Ok,
    ensures
        out_with is Ok,
        out_with->Ok_0.0.keep_alive == if text::lowered(text::trimmed(value)) == "close"@ {
            false
        } else if text::lowered(text::trimmed(value)) == "keep-alive"@ {
            true
        } else {
            out_without->Ok_0.0.keep_alive
        },
        out_with->Ok_0.0.method@ == out_without->Ok_0.0.method@,
        out_with->Ok_0.0.path@ == out_without->Ok_0.0.path@,
        out_with->Ok_0.0.content_length == out_without->Ok_0.0.content_length,
{
    let line = name + seq![':'] + value;
    let none = Seq::<Seq<char>>::empty();
    lemma_header_line(name, value);
    reveal_strlit("content-length");
    reveal_strlit("transfer-encoding");
    reveal_strlit("connection");
    reveal_strlit("close");
    reveal_strlit("keep-alive");
    assert("connection"@.len() != "content-length"@.len());
    assert("connection"@.len() != "transfer-encoding"@.len());
    assert("close"@.len() != "keep-alive"@.len());
    assert(lines + seq![line] + none =~= lines + seq![line]);
    assert(lines + none =~= lines);
    lemma_head_with_more(lines, line, none, rest);
}

/// A chunked body is refused as unsupported; any other `Transfer-Encoding` is ignored.
pub proof fn chunked_bodies_are_refused(
    lines: Seq<Seq<char>>,
    name: Seq<char>,
    value: Seq<char>,
    rest: Seq<u8>,
    with: &[u8],
    without: &[u8],
    out_with: Result<(RequestHead, usize), ParseError>,
    out_without: Result<(RequestHead, usize), ParseError>,
)
    requires
        all_clean(lines),
        clean(name + seq![':'] + value),
        forall|i: int| 0 <= i < name.len() ==> #[trigger] name[i] != ':',
        text::lowered(text::trimmed(name)) == "transfer-encoding"@,
        with@ == on_the_wire(lines + seq![name + seq![':'] + value], rest),
        without@ == on_the_wire(lines, rest),
        with@.len() - rest.len() <= 8192,
        call_ensures(parse_head, (with,), out_with),
        call_ensures(parse_head, (without,), out_without),
        out_without is Ok,
    ensures
        text::lowered(text::trimmed(value)) == "chunked"@ ==> out_with == Err::<
            (RequestHead, usize),
            ParseError,
        >(ParseError::Unsupported),
        text::lowered(text::trimmed(value)) != "chunked"@ ==> out_with is Ok && same_head(
            out_with->Ok_0.0,
            out_without->Ok_0.0,
        ),
{
    let line = name + seq![':'] + value;
    let none = Seq::<Seq<char>>::empty();
    lemma_header_line(name, value);
    reveal_strlit("content-length");
    reveal_strlit("transfer-encoding");
    reveal_strlit("connection");
    assert("transfer-encoding"@.len() != "content-length"@.len());
    assert("transfer-encoding"@.len() != "connection"@.len());
    assert(lines + seq![line] + none =~= lines + seq![line]);
    assert(lines + none =~= lines);
    lemma_head_with_more(lines, line, none, rest);
}

/// A header line without a colon makes the head malformed.
pub proof fn header_without_a_colon_is_malformed(
    lines: Seq<Seq<char>>,
    line: Seq<char>,
    rest: Seq<u8>,
    with: &[u8],
    without: &[u8],
    out_with: Result<(RequestHead, usize), ParseError>,
    out_without: Result<(RequestHead, usize), ParseError>,
)
    requires
        all_clean(lines),
        clean(line),
        forall|i: int| 0 <= i < line.len() ==> #[trigger] line[i] != ':',
        with@ == on_the_wire(lines + seq![line], rest),
        without@ == on_the_wire(lines, rest),
        with@.len() - rest.len() <= 8192,
        call_ensures(parse_head, (with,), out_with),
        call_ensures(parse_head, (without,), out_without),
        out_without is Ok,
    ensures
        out_with == Err::<(RequestHead, usize), ParseError>(ParseError::Malformed),
{
    let none = Seq::<Seq<char>>::empty();
    assert(lines + seq![line] + none =~= lines + seq![line]);
    assert(lines + none =~= lines);
    lemma_head_with_more(lines, line, none, rest);
    text::first_of_finds_the_first(line, seq![':']);
    if let Some(i) = text::first_of(line, seq![':']) {
        assert(line.subrange(i, i + 1)[0] == line[i]);
    }
}

/// The parts of a request line are found again in it.
proof fn lemma_request_line_parts(method: Seq<char>, path: Seq<char>, version: Seq<char>)
    requires
        forall|i: int| 0 <= i < method.len() ==> #[trigger] method[i] != ' ',
        forall|i: int| 0 <= i < path.len() ==> #[trigger] path[i] != ' ',
        forall|i: int| 0 <= i < version.len() ==> #[trigger] version[i] != ' ',
    ensures
        text::split_on(method + seq![' '] + path + seq![' '] + version, seq![' ']) == seq![
            method,
            path,
            version,
        ],
{
    let parts = seq![method, path, version];
    let sep = seq![' '];
    assert forall|i: int, j: int|
        0 <= i < parts.len() && 0 <= j < parts[i].len() implies #[trigger] parts[i][j]
        != sep[0] by {
        if i == 0 {
            assert(method[j] != ' ');
        } else if i == 1 {
            assert(path[j] != ' ');
        } else {
            assert(version[j] != ' ');
        }
    }
    let two = parts.drop_first();
    let one = two.drop_first();
    assert(one =~= seq![version]);
    assert(text::joined_with(one, sep) == version);
    assert(text::joined_with(two, sep) =~= path + sep + version);
    assert(text::joined_with(parts, sep) =~= method + sep + path + sep + version);
    text::joined_pieces_are_split_again(parts, sep);
}

proof fn lemma_request_line_clean(method: Seq<char>, path: Seq<char>, version: Seq<char>)
    requires
        clean(method) && clean(path) && clean(version),
    ensures
        clean(method + seq![' '] + path + seq![' '] + version),
{
    let line = method + seq![' '] + path + seq![' '] + version;
    assert forall|i: int| 0 <= i < line.len() implies #[trigger] line[i] != '\r' by {
        let m = method.len() as int;
        let p = path.len() as int;
        if i < m {
            assert(line[i] == method[i]);
        } else if i == m || i == m + p + 1 {
            assert(line[i] == ' ');
        } else if i < m + 1 + p {
            assert(line[i] == path[i - m - 1]);
        } else {
            assert(line[i] == version[i - m - p - 2]);
        }
    }
}

/// A request line of a method, a path and a version that starts with `HTTP/1.`, with
/// one space between each two of them, is read as just that: without headers there is no
/// body, and the connection stays open for `HTTP/1.1` only.
pub proof fn request_line_is_read(
    method: Seq<char>,
    path: Seq<char>,
    version: Seq<char>,
    rest: Seq<u8>,
    buf: &[u8],
    out: Result<(RequestHead, usize), ParseError>,
)
    requires
        clean(method) && clean(path) && clean(version),
        forall|i: int| 0 <= i < method.len() ==> #[trigger] method[i] != ' ',
        forall|i: int| 0 <= i < path.len() ==> #[trigger] path[i] != ' ',
        forall|i: int| 0 <= i < version.len() ==> #[trigger] version[i] != ' ',
        "HTTP/1."@.is_prefix_of(version),
        buf@ == on_the_wire(seq![method + seq![' '] + path + seq![' '] + version], rest),
        buf@.len() - rest.len() <= 8192,
        call_ensures(parse_head, (buf,), out),
    ensures
        out is Ok,
        out->Ok_0.0.method@ == method,
        out->Ok_0.0.path@ == path,
        out->Ok_0.0.content_length == 0,
        out->Ok_0.0.keep_alive == (version == "HTTP/1.1"@),
        out->Ok_0.1 == buf@.len() - rest.len(),
{
    let line = method + seq![' '] + path + seq![' '] + version;
    let lines = seq![line];
    lemma_request_line_clean(method, path, version);
    assert(all_clean(lines));
    lemma_request_line_parts(method, path, version);
    lemma_head_of_lines(lines, rest);
    assert(lines.drop_first() =~= Seq::<Seq<char>>::empty());
}

/// What is read of a request line is what stands in it: a method, a path and a version
/// that starts with `HTTP/1.`, with one space between each two of them. A line that is
/// not made like that is malformed.
pub proof fn only_such_request_lines_are_read(
    lines: Seq<Seq<char>>,
    rest: Seq<u8>,
    buf: &[u8],
    out: Result<(RequestHead, usize), ParseError>,
)
    requires
        all_clean(lines),
        buf@ == on_the_wire(lines, rest),
        call_ensures(parse_head, (buf,), out),
        out is Ok,
    ensures
        out->Ok_0.0.method@.len() > 0 && out->Ok_0.0.path@.len() > 0,
        exists|version: Seq<char>|
            {
                &&& "HTTP/1."@.is_prefix_of(version)
                &&& lines[0] == #[trigger] (out->Ok_0.0.method@ + seq![' '] + out->Ok_0.0.path@
                    + seq![' '] + version)
            },
{
    lemma_wire(lines, rest);
    let parts = text::split_on(lines[0], seq![' ']);
    text::split_pieces_make_the_text(lines[0], seq![' ']);
    let two = parts.drop_first();
    assert(two.drop_first() =~= seq![parts[2]]);
    assert(text::joined_with(seq![parts[2]], seq![' ']) == parts[2]);
    assert(text::joined_with(two.drop_first(), seq![' ']) == parts[2]);
    assert(text::joined_with(two, seq![' ']) =~= parts[1] + seq![' '] + parts[2]);
    assert(lines[0] =~= parts[0] + seq![' '] + parts[1] + seq![' '] + parts[2]);
}

/// A head is waited for while there is no blank line and at most 8192 bytes, and it is
/// too large where none ends within 8192 bytes; it ends with the first blank line.
pub proof fn heads_end_at_the_first_blank_line(
    buf: &[u8],
    out: Result<(RequestHead, usize), ParseError>,
)
    requires
        call_ensures(parse_head, (buf,), out),
    ensures
        out == Err::<(RequestHead, usize), ParseError>(ParseError::Incomplete) <==> buf@.len()
            <= 8192 && (forall|j: int|
            0 <= j <= buf@.len() - 4 ==> #[trigger] buf@.subrange(j, j + 4) != seq![
                13u8,
                10u8,
                13u8,
                10u8,
            ]),
        out == Err::<(RequestHead, usize), ParseError>(ParseError::HeadTooLarge) <==> buf@.len()
            > 8192 && (forall|j: int|
            0 <= j <= 8188 ==> #[trigger] buf@.subrange(j, j + 4) != seq![13u8, 10u8, 13u8, 10u8]),
        out matches Ok((_, len)) ==> {
            &&& 4 <= len <= buf@.len()
            &&& buf@.subrange(len - 4, len as int) == seq![13u8, 10u8, 13u8, 10u8]
            &&& forall|j: int|
                0 <= j < len - 4 ==> #[trigger] buf@.subrange(j, j + 4) != seq![
                    13u8,
                    10u8,
                    13u8,
                    10u8,
                ]
        },
{
    let blank = seq![13u8, 10u8, 13u8, 10u8];
    assert(blank.len() == 4);
    text::first_of_finds_the_first(buf@, blank);
    incomplete_means_no_blank_line(buf@);
    assert forall|j: int| 0 <= j <= buf@.len() - 4 && text::first_of(
        buf@,
        blank,
    ) is None implies #[trigger] buf@.subrange(j, j + 4) != blank by {
        assert(buf@.subrange(j, j + blank.len()) != blank);
    }
    if let Some(i) = text::first_of(buf@, blank) {
        assert(buf@.subrange(i, i + 4) == blank);
        assert forall|j: int| 0 <= j < i implies #[trigger] buf@.subrange(j, j + 4) != blank by {
            assert(buf@.subrange(j, j + blank.len()) != blank);
        }
        let head = utf8::decode_utf8(buf@.take(i));
        let lines = text::split_on(head, crlf());
        let parts = text::split_on(lines[0], seq![' ']);
        let start = Framing { keep_alive: parts[2] == "HTTP/1.1"@, content_length: 0 };
        lemma_headers_are_never_too_large(lines.drop_first(), start);
    }
}

proof fn lemma_headers_are_never_too_large(lines: Seq<Seq<char>>, so_far: Framing)
    ensures
        apply_headers(lines, so_far) != Err::<Framing, ParseError>(ParseError::HeadTooLarge),
    decreases lines.len(),
{
    if lines.len() > 0 {
        if let Ok(next) = apply_header(lines.first(), so_far) {
            lemma_headers_are_never_too_large(lines.drop_first(), next);
        }
    }
}

/// The bytes are a response with this status line, whose headers say that the body is
/// plain text, how many bytes it has, and whether the connection stays open. Behind the
/// blank line comes the body, if it is written, and nothing else.
pub open spec fn carries(
    bytes: Seq<u8>,
    status: nat,
    reason: Seq<char>,
    body: Seq<char>,
    keep_alive: bool,
    write_body: bool,
) -> bool {
    let head = "HTTP/1.1 "@ + text::decimal_text(status) + " "@ + reason + "\r\n"@
        + "content-type: text/plain; charset=utf-8"@ + "\r\n"@ + "content-length: "@
        + text::decimal_text(utf8::encode_utf8(body).len()) + "\r\n"@ + "connection: "@ + (
    if keep_alive {
        "keep-alive"@
    } else {
        "close"@
    }) + "\r\n\r\n"@;
    bytes == utf8::encode_utf8(head) + (if write_body {
        utf8::encode_utf8(body)
    } else {
        Seq::empty()
    })
}

/// What a response is made of, on the wire.
pub proof fn responses_carry_their_parts(
    status: nat,
    reason: Seq<char>,
    body: Seq<char>,
    keep_alive: bool,
    write_body: bool,
)
    ensures
        carries(
            utf8::encode_utf8(response_text(status, reason, body, keep_alive, write_body)),
            status,
            reason,
            body,
            keep_alive,
            write_body,
        ),
{
    let head = response_head(status, reason, body, keep_alive);
    if write_body {
        lemma_encode_concat(head, body);
    } else {
        assert(utf8::encode_utf8(head) + Seq::<u8>::empty() =~= utf8::encode_utf8(head));
    }
    let conn = if keep_alive {
        "keep-alive"@
    } else {
        "close"@
    };
    let size = text::decimal_text(utf8::encode_utf8(body).len());
    let start = "HTTP/1.1 "@ + text::decimal_text(status) + " "@ + reason;
    reveal_strlit("\r\ncontent-type: text/plain; charset=utf-8\r\ncontent-length: ");
    reveal_strlit("content-type: text/plain; charset=utf-8");
    reveal_strlit("\r\n");
    reveal_strlit("content-length: ");
    reveal_strlit("connection: ");
    reveal_strlit("\r\nconnection: ");
    assert("\r\ncontent-type: text/plain; charset=utf-8\r\ncontent-length: "@ =~= "\r\n"@
        + "content-type: text/plain; charset=utf-8"@ + "\r\n"@ + "content-length: "@);
    assert("\r\nconnection: "@ =~= "\r\n"@ + "connection: "@);
    assert(head =~= start + "\r\n"@ + "content-type: text/plain; charset=utf-8"@ + "\r\n"@
        + "content-length: "@ + size + "\r\n"@ + "connection: "@ + conn + "\r\n\r\n"@);
}

/// A response starts with its status line, announces the length of its body in bytes
/// and whether the connection stays open, and ends with the body, if it is written,
/// behind a blank line.
pub proof fn responses_announce_their_body(
    status: u16,
    reason: &str,
    body: &str,
    keep_alive: bool,
    write_body: bool,
    out: Vec<u8>,
)
    requires
        call_ensures(build_response, (status, reason, body, keep_alive, write_body), out),
    ensures
        carries(out@, status as nat, reason@, body@, keep_alive, write_body),
        exists|head: Seq<char>|
            {
                &&& out@ == #[trigger] utf8::encode_utf8(head) + (if write_body {
                    utf8::encode_utf8(body@)
                } else {
                    Seq::empty()
                })
                &&& ("HTTP/1.1 "@ + text::decimal_text(status as nat) + " "@ + reason@ + "\r\n"@)
                    .is_prefix_of(head)
                &&& ("\r\n"@ + "content-length: "@ + text::decimal_text(
                    utf8::encode_utf8(body@).len(),
                ) + "\r\n"@ + "connection: "@ + (if keep_alive {
                    "keep-alive"@
                } else {
                    "close"@
                }) + "\r\n\r\n"@).is_suffix_of(head)
            },
{
    responses_carry_their_parts(status as nat, reason@, body@, keep_alive, write_body);
    let head = response_head(status as nat, reason@, body@, keep_alive);
    if write_body {
        lemma_encode_concat(head, body@);
    } else {
        assert(utf8::encode_utf8(head) + Seq::<u8>::empty() =~= utf8::encode_utf8(head));
    }
    let kind = "\r\ncontent-type: text/plain; charset=utf-8\r\ncontent-length: "@;
    let conn = if keep_alive {
        "keep-alive"@
    } else {
        "close"@
    };
    let size = text::decimal_text(utf8::encode_utf8(body@).len());
    let start = "HTTP/1.1 "@ + text::decimal_text(status as nat) + " "@ + reason@;
    reveal_strlit("\r\ncontent-type: text/plain; charset=utf-8\r\ncontent-length: ");
    reveal_strlit("\r\n");
    reveal_strlit("content-length: ");
    reveal_strlit("connection: ");
    reveal_strlit("\r\nconnection: ");
    let mid = kind.subrange(2, kind.len() - 18);
    let tail = "\r\n"@ + "content-length: "@ + size + "\r\n"@ + "connection: "@ + conn
        + "\r\n\r\n"@;
    assert(kind =~= "\r\n"@ + mid + ("\r\n"@ + "content-length: "@));
    assert("\r\nconnection: "@ =~= "\r\n"@ + "connection: "@);
    assert(head =~= (start + "\r\n"@) + (mid + tail));
    assert(head =~= (start + "\r\n"@ + mid) + tail);
    let front = start + "\r\n"@;
    assert(front =~= head.subrange(0, front.len() as int));
    assert(tail =~= head.subrange(head.len() - tail.len(), head.len() as int));
}

/// The status line of a response is what its bytes start with.
pub proof fn responses_start_with_their_status(
    status: nat,
    reason: Seq<char>,
    body: Seq<char>,
    keep_alive: bool,
    write_body: bool,
)
    ensures
        utf8::encode_utf8("HTTP/1.1 "@ + text::decimal_text(status) + " "@ + reason).is_prefix_of(
            utf8::encode_utf8(response_text(status, reason, body, keep_alive, write_body)),
        ),
{
    let start = "HTTP/1.1 "@ + text::decimal_text(status) + " "@ + reason;
    let all = response_text(status, reason, body, keep_alive, write_body);
    assert(start =~= all.subrange(0, start.len() as int));
    let rest = all.skip(start.len() as int);
    assert(all =~= start + rest);
    lemma_encode_concat(start, rest);
    assert(utf8::encode_utf8(start) =~= utf8::encode_utf8(all).subrange(
        0,
        utf8::encode_utf8(start).len() as int,
    ));
}

} // verus!
