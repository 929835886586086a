//! Reading a request from the bytes received on a connection.
use vstd::prelude::*;

use crate::fields::{lookup, Fields, Pairs};
use crate::headers::{
    header_line_pairs, lower_of, lowercase, parse_header_chars, split_whitespace, words, Cookies,
    Headers,
};
use crate::status::{parse_method, Method, Status};
use crate::target::{pairs_from, parse_pairs, parse_queries, target_path_of, target_query_of, Target};
use crate::text::{find_bytes, find_from, split_once, str_eq, string_of};
use crate::version::{parse_decimal, parse_decimal_exec, parse_version, Version};

verus! {

/// Bytes read one for one as characters (`U+0000` to `U+00FF`).
pub open spec fn latin1(b: Seq<u8>) -> Seq<char> {
    b.map_values(|x: u8| x as char)
}

/// The line that starts at `pos`: the characters up to the first `\r\n` at or after
/// `pos`, and the position just after that `\r\n`; `None` when no `\r\n` follows.
pub open spec fn line_at(input: Seq<u8>, pos: int) -> Option<(Seq<char>, int)> {
    match find_from(input, seq![13u8, 10u8], pos) {
        Some(k) => Some((latin1(input.subrange(pos, k)), k + 2)),
        None => None,
    }
}

/// Reads the line that starts at `pos` (see [`line_at`]). A lone `\n` belongs to the
/// line.
pub fn read_line(input: &[u8], pos: usize) -> (r: Option<(Vec<char>, usize)>)
    ensures
        r matches Some((l, p)) ==> line_at(input@, pos as int) == Some((l@, p as int)) && pos
            + 2 <= p <= input@.len(),
        r is None ==> line_at(input@, pos as int) is None,
{
    let crlf = [13u8, 10u8];
    assert(crlf@ == seq![13u8, 10u8]);
    match find_bytes(input, &crlf, pos) {
        Some(k) => {
            let mut line: Vec<char> = Vec::new();
            let mut i = pos;
            while i < k
                invariant
                    pos <= i <= k,
                    k + 2 <= input@.len(),
                    line@ == latin1(input@.subrange(pos as int, i as int)),
                decreases k - i,
            {
                line.push(input[i] as char);
                assert(input@.subrange(pos as int, i + 1) == input@.subrange(pos as int, i as int).push(input@[i as int]));
                i = i + 1;
            }
            assert(input@.len() == input.len());
            Some((line, k + 2))
        },
        None => None,
    }
}

/// Copies the `n` bytes that start at `pos`, when there are that many.
pub fn read_bytes(input: &[u8], pos: usize, n: usize) -> (r: Option<Vec<u8>>)
    requires
        pos <= input@.len(),
    ensures
        r matches Some(b) ==> input@.len() - pos >= n && b@ == input@.subrange(pos as int, pos + n),
        r is None ==> input@.len() - pos < n,
{
    if input.len() - pos >= n {
        Some(vstd::slice::slice_to_vec(vstd::slice::slice_subrange(input, pos, pos + n)))
    } else {
        None
    }
}

/// Whether `c` is a hexadecimal digit.
pub open spec fn is_hex_digit(c: char) -> bool {
    crate::target::is_hex(c)
}

/// The value of a string of hex digits (0 for the empty string).
pub open spec fn hex_digits_value(s: Seq<char>) -> nat
    decreases s.len(),
{
    if s.len() == 0 {
        0
    } else {
        hex_digits_value(s.drop_last()) * 16 + crate::target::hex_value(s.last())
    }
}

/// The number that the non-empty hex digit string `s` spells, when it fits in a
/// `usize`.
pub open spec fn parse_hex(s: Seq<char>) -> Option<usize> {
    if s.len() > 0 && (forall|i: int| 0 <= i < s.len() ==> is_hex_digit(#[trigger] s[i]))
        && hex_digits_value(s) <= usize::MAX {
        Some(hex_digits_value(s) as usize)
    } else {
        None
    }
}

fn hex_value_exec(c: char) -> (r: usize)
    requires
        is_hex_digit(c),
    ensures
        r == crate::target::hex_value(c),
        r < 16,
{
    if '0' <= c && c <= '9' {
        (c as u32 - 48) as usize
    } else if 'a' <= c && c <= 'f' {
        (c as u32 - 87) as usize
    } else {
        (c as u32 - 55) as usize
    }
}

/// Reads the hex number that `s` spells (see [`parse_hex`]).
pub fn parse_hex_exec(s: &[char]) -> (r: Option<usize>)
    ensures
        r == parse_hex(s@),
{
    if s.len() == 0 {
        return None;
    }
    let mut val: usize = 0;
    let mut over = false;
    let mut i: usize = 0;
    while i < s.len()
        invariant
            i <= s@.len(),
            forall|j: int| 0 <= j < i ==> is_hex_digit(#[trigger] s@[j]),
            !over ==> val == hex_digits_value(s@.take(i as int)),
            over ==> hex_digits_value(s@.take(i as int)) > usize::MAX,
        decreases s@.len() - i,
    {
        let c = s[i];
        if !(('0' <= c && c <= '9') || ('a' <= c && c <= 'f') || ('A' <= c && c <= 'F')) {
            return None;
        }
        let d = hex_value_exec(c);
        assert(s@.take(i + 1).drop_last() == s@.take(i as int));
        if !over {
            if val > (usize::MAX - d) / 16 {
                over = true;
                assert(val * 16 + d > usize::MAX) by (nonlinear_arith)
                    requires
                        val > (usize::MAX - d) / 16,
                        d < 16,
                ;
            } else {
                assert(val * 16 + d <= usize::MAX) by (nonlinear_arith)
                    requires
                        val <= (usize::MAX - d) / 16,
                        d < 16,
                ;
                val = val * 16 + d;
            }
        }
        i = i + 1;
    }
    assert(s@.take(s@.len() as int) == s@);
    if over {
        None
    } else {
        Some(val)
    }
}

/// How reading the header block ends.
pub enum HeaderPhase {
    /// The block ended with an empty line; the pairs read and the position after it.
    Complete(Pairs, int),
    /// The input ends before the empty line.
    NeedMore,
    /// A line without `:`.
    Bad,
}

/// Reading header lines from `pos` until an empty line, storing each in `acc`.
pub open spec fn headers_from(input: Seq<u8>, pos: int, acc: Pairs) -> HeaderPhase
    decreases input.len() - pos,
{
    match line_at(input, pos) {
        None => HeaderPhase::NeedMore,
        Some((l, p)) => if l.len() == 0 {
            HeaderPhase::Complete(acc, p)
        } else if pos < p <= input.len() {
            match header_line_pairs(acc, l) {
                Some(next) => headers_from(input, p, next),
                None => HeaderPhase::Bad,
            }
        } else {
            HeaderPhase::Bad
        },
    }
}

/// How reading a chunked body ends.
pub enum ChunkPhase {
    /// The last chunk and the trailers were read; the body and the position after them.
    Complete(Seq<u8>, int),
    /// The input ends first.
    NeedMore,
    /// A chunk size that is not a hex number.
    Bad,
}

/// The size field of a chunk-size line: the text before any `;`.
pub open spec fn chunk_size_text(l: Seq<char>) -> Seq<char> {
    match split_once(l, seq![';']) {
        Some((a, _)) => a,
        None => l,
    }
}

/// Skipping trailer lines from `pos` through the first empty line; the position after
/// it.
pub open spec fn trailers_from(input: Seq<u8>, pos: int) -> Option<int>
    decreases input.len() - pos,
{
    match line_at(input, pos) {
        None => None,
        Some((l, p)) => if l.len() == 0 {
            Some(p)
        } else if pos < p <= input.len() {
            trailers_from(input, p)
        } else {
            None
        },
    }
}

/// Reading chunks from `pos`, with `body` read so far.
pub open spec fn chunks_from(input: Seq<u8>, pos: int, body: Seq<u8>) -> ChunkPhase
    decreases input.len() - pos,
{
    match line_at(input, pos) {
        None => ChunkPhase::NeedMore,
        Some((l, p)) => match parse_hex(chunk_size_text(l)) {
            None => ChunkPhase::Bad,
            Some(n) => if n == 0 {
                match trailers_from(input, p) {
                    Some(e) => ChunkPhase::Complete(body, e),
                    None => ChunkPhase::NeedMore,
                }
            } else if pos < p && input.len() - p >= n + 2 {
                chunks_from(input, p + n + 2, body + input.subrange(p, p + n))
            } else {
                ChunkPhase::NeedMore
            },
        },
    }
}

/// How reading a body ends.
pub enum BodyPhase {
    /// The body and the position after it.
    Body(Seq<u8>, int),
    /// More input is needed.
    Incomplete,
    /// The request is refused with this status code.
    Reject(usize),
}

/// Reading the body that the headers `h` announce, from `pos`.
pub open spec fn body_from(input: Seq<u8>, closed: bool, pos: int, h: Pairs) -> BodyPhase {
    match lookup(h, "transfer-encoding"@) {
        Some(te) => if lower_of(te) == "chunked"@ {
            match chunks_from(input, pos, Seq::empty()) {
                ChunkPhase::Complete(b, e) => BodyPhase::Body(b, e),
                ChunkPhase::NeedMore => if closed {
                    BodyPhase::Reject(400)
                } else {
                    BodyPhase::Incomplete
                },
                ChunkPhase::Bad => BodyPhase::Reject(400),
            }
        } else {
            BodyPhase::Reject(400)
        },
        None => match lookup(h, "content-length"@) {
            Some(cl) => match parse_decimal(cl) {
                None => BodyPhase::Reject(400),
                Some(n) => if input.len() - pos >= n {
                    BodyPhase::Body(input.subrange(pos, pos + n), pos + n)
                } else if closed {
                    BodyPhase::Reject(500)
                } else {
                    BodyPhase::Incomplete
                },
            },
            None => BodyPhase::Body(Seq::empty(), pos),
        },
    }
}

/// The cookies of a header block: the `; `-separated `name=value` pairs of `cookie`.
pub open spec fn cookies_of(h: Pairs) -> Pairs {
    match lookup(h, "cookie"@) {
        Some(c) => pairs_from(Seq::empty(), c, "; "@),
        None => Seq::empty(),
    }
}

/// What a request holds, as plain values.
pub struct RequestModel {
    /// The method.
    pub method: Method,
    /// The decoded path.
    pub path: Seq<char>,
    /// The query pairs.
    pub queries: Pairs,
    /// The protocol version.
    pub version: Version,
    /// The headers, with lower-case names.
    pub headers: Pairs,
    /// The cookies of the `Cookie` header.
    pub cookies: Pairs,
    /// The body.
    pub body: Seq<u8>,
}

/// What reading a request from the received bytes gives.
pub enum Outcome {
    /// A whole request, and the number of bytes it took.
    Done(RequestModel, int),
    /// More bytes are needed.
    Incomplete,
    /// The request is refused with this status code, and the connection closed.
    Reject(usize),
    /// The connection is closed without a response.
    Drop,
}

/// Reading a request from `input`; `closed` tells that no more bytes will come.
pub open spec fn request_outcome(input: Seq<u8>, closed: bool) -> Outcome {
    match line_at(input, 0) {
        None => if closed {
            Outcome::Drop
        } else {
            Outcome::Incomplete
        },
        Some((l, p)) => {
            let w = words(l);
            if w.len() != 3 {
                Outcome::Reject(400)
            } else {
                match parse_method(w[0]) {
                    None => Outcome::Reject(501),
                    Some(m) => match parse_version(w[2]) {
                        None => Outcome::Reject(400),
                        Some(v) => match headers_from(input, p, Seq::empty()) {
                            HeaderPhase::NeedMore => if closed {
                                Outcome::Drop
                            } else {
                                Outcome::Incomplete
                            },
                            HeaderPhase::Bad => Outcome::Drop,
                            HeaderPhase::Complete(h, q) => match body_from(input, closed, q, h) {
                                BodyPhase::Body(b, e) => Outcome::Done(
                                    RequestModel {
                                        method: m,
                                        path: target_path_of(w[1]),
                                        queries: parse_queries(target_query_of(w[1])),
                                        version: v,
                                        headers: h,
                                        cookies: cookies_of(h),
                                        body: b,
                                    },
                                    e,
                                ),
                                BodyPhase::Incomplete => Outcome::Incomplete,
                                BodyPhase::Reject(code) => Outcome::Reject(code),
                            },
                        },
                    },
                }
            }
        },
    }
}

/// How reading the header block ended.
pub enum HeaderRead {
    /// The headers and the position after the empty line.
    Complete(Headers, usize),
    /// The input ends before the empty line.
    NeedMore,
    /// A line without `:`.
    Bad,
}

/// Reads header lines from `pos` up to and including the first empty line.
pub fn read_headers(input: &[u8], pos: usize) -> (r: HeaderRead)
    ensures
        r matches HeaderRead::Complete(h, e) ==> h.wf() && headers_from(input@, pos as int, Seq::empty())
            == HeaderPhase::Complete(h@, e as int) && e <= input@.len(),
        r is NeedMore ==> headers_from(input@, pos as int, Seq::empty()) is NeedMore,
        r is Bad ==> headers_from(input@, pos as int, Seq::empty()) is Bad,
{
    let mut headers = Fields::new();
    let mut p = pos;
    loop
        invariant
            headers.wf(),
            p <= input@.len() || p == pos,
            headers_from(input@, p as int, headers@) == headers_from(input@, pos as int, Seq::empty()),
        decreases input@.len() - p,
    {
        match read_line(input, p) {
            None => return HeaderRead::NeedMore,
            Some((line, next)) => {
                if line.len() == 0 {
                    return HeaderRead::Complete(headers, next);
                }
                match parse_header_chars(&mut headers, line.as_slice()) {
                    Some(_) => {},
                    None => return HeaderRead::Bad,
                }
                p = next;
            },
        }
    }
}

/// Skips trailer lines from `pos` through the first empty line; the position after it.
fn read_trailers(input: &[u8], pos: usize) -> (r: Option<usize>)
    ensures
        r matches Some(e) ==> trailers_from(input@, pos as int) == Some(e as int) && e <= input@.len(),
        r is None ==> trailers_from(input@, pos as int) is None,
{
    let mut p = pos;
    loop
        invariant
            trailers_from(input@, p as int) == trailers_from(input@, pos as int),
        decreases input@.len() - p,
    {
        match read_line(input, p) {
            None => return None,
            Some((line, next)) => {
                if line.len() == 0 {
                    return Some(next);
                }
                p = next;
            },
        }
    }
}

/// How reading a chunked body ended.
pub enum ChunkRead {
    /// The body and the position after the trailers.
    Complete(Vec<u8>, usize),
    /// The input ends first.
    NeedMore,
    /// A chunk size that is not a hex number.
    Bad,
}

/// Reads a chunked body from `pos`: chunks up to the last (empty) one, then the
/// trailers, which are dropped.
pub fn read_chunks(input: &[u8], pos: usize) -> (r: ChunkRead)
    ensures
        r matches ChunkRead::Complete(b, e) ==> chunks_from(input@, pos as int, Seq::empty())
            == ChunkPhase::Complete(b@, e as int) && e <= input@.len(),
        r is NeedMore ==> chunks_from(input@, pos as int, Seq::empty()) is NeedMore,
        r is Bad ==> chunks_from(input@, pos as int, Seq::empty()) is Bad,
{
    let mut body: Vec<u8> = Vec::new();
    let mut p = pos;
    let semi = [';'];
    assert(semi@ == seq![';']);
    loop
        invariant
            semi@ == seq![';'],
            chunks_from(input@, p as int, body@) == chunks_from(input@, pos as int, Seq::empty()),
        decreases input@.len() - p,
    {
        match read_line(input, p) {
            None => return ChunkRead::NeedMore,
            Some((line, next)) => {
                let size_text = match crate::text::find_chars(line.as_slice(), &semi, 0) {
                    Some(k) => {
                        let t = line.as_slice().split_at(k).0;
                        assert(t@ == line@.take(k as int));
                        t
                    },
                    None => line.as_slice(),
                };
                assert(size_text@ == chunk_size_text(line@));
                match parse_hex_exec(size_text) {
                    None => return ChunkRead::Bad,
                    Some(n) => {
                        if n == 0 {
                            match read_trailers(input, next) {
                                Some(e) => return ChunkRead::Complete(body, e),
                                None => return ChunkRead::NeedMore,
                            }
                        }
                        if input.len() - next >= 2 && input.len() - next - 2 >= n {
                            let data = vstd::slice::slice_subrange(input, next, next + n);
                            let ghost old_body = body@;
                            body.extend_from_slice(data);
                            assert(body@ == old_body + input@.subrange(next as int, next + n));
                            assert(line_at(input@, p as int) == Some((line@, next as int)));
                            assert(parse_hex(chunk_size_text(line@)) == Some(n));
                            assert(chunks_from(input@, p as int, old_body) == chunks_from(
                                input@,
                                next + n + 2,
                                old_body + input@.subrange(next as int, next + n),
                            ));
                            p = next + n + 2;
                        } else {
                            return ChunkRead::NeedMore;
                        }
                    },
                }
            },
        }
    }
}

/// A request received from a client.
#[derive(Clone, Debug)]
pub struct Request {
    /// The method.
    pub method: Method,
    /// The target.
    pub target: Target,
    /// The protocol version that the client sent.
    pub version: Version,
    /// The body (empty when there is none).
    pub body: Vec<u8>,
    /// The headers, with lower-case names.
    pub headers: Headers,
    /// The cookies of the `Cookie` header.
    pub cookies: Cookies,
}

impl Request {
    /// What the request holds, as plain values.
    pub open spec fn model(&self) -> RequestModel {
        RequestModel {
            method: self.method,
            path: self.target.relative_path@,
            queries: self.target.queries@,
            version: self.version,
            headers: self.headers@,
            cookies: self.cookies@,
            body: self.body@,
        }
    }
}

/// What reading a request from the received bytes gave.
pub enum Parsed {
    /// A whole request, and the number of bytes that it took.
    Done(Request, usize),
    /// More bytes are needed.
    Incomplete,
    /// Respond with this status, then close the connection.
    Reject(Status),
    /// Close the connection without a response.
    Drop,
}

impl Request {
    /// Reads a request from the start of `input`, the bytes received so far on a
    /// connection; `closed` tells that no more will come. The request line must hold
    /// exactly three words, a method (else `501`) and a version (else `400`); header
    /// lines follow up to an empty line (a line without `:` drops the connection); the
    /// body is chunked (`Transfer-Encoding: chunked`; another coding, a bad chunk size or
    /// a body cut short gives `400`), counted (`Content-Length`; a bad length gives `400`,
    /// a body cut short `500`) or absent.
    pub fn new(input: &[u8], closed: bool) -> (r: Parsed)
        ensures
            r matches Parsed::Done(req, n) ==> request_outcome(input@, closed) == Outcome::Done(
                req.model(),
                n as int,
            ) && req.target.target_path@.len() == 0 && req.headers.wf() && req.cookies.wf()
                && req.target.queries.wf() && n <= input@.len(),
            r is Incomplete ==> request_outcome(input@, closed) is Incomplete,
            r matches Parsed::Reject(s) ==> request_outcome(input@, closed) == Outcome::Reject(
                s.code_spec(),
            ) && !(s is Other),
            r is Drop ==> request_outcome(input@, closed) is Drop,
    {
        let (first, p) = match read_line(input, 0) {
            None => {
                return if closed {
                    Parsed::Drop
                } else {
                    Parsed::Incomplete
                };
            },
            Some(x) => x,
        };
        let w = split_whitespace(first.as_slice());
        let ghost ws = w@.map_values(|x: Vec<char>| x@);
        if w.len() != 3 {
            return Parsed::Reject(Status::BadRequest);
        }
        assert(ws[0] == w@[0]@ && ws[1] == w@[1]@ && ws[2] == w@[2]@);
        let method = match Method::new(string_of(w[0].as_slice()).as_str()) {
            Some(m) => m,
            None => return Parsed::Reject(Status::NotImplemented),
        };
        let target = Target::new(string_of(w[1].as_slice()).as_str());
        let version = match Version::new(string_of(w[2].as_slice()).as_str()) {
            Some(v) => v,
            None => return Parsed::Reject(Status::BadRequest),
        };
        let (headers, q) = match read_headers(input, p) {
            HeaderRead::Complete(h, q) => (h, q),
            HeaderRead::NeedMore => {
                return if closed {
                    Parsed::Drop
                } else {
                    Parsed::Incomplete
                };
            },
            HeaderRead::Bad => return Parsed::Drop,
        };
        let cookies = match headers.get("cookie") {
            Some(c) => {
                let cs = crate::text::chars_of(c.as_str());
                let sep = [';', ' '];
                proof {
                    reveal_strlit("; ");
                }
                assert(sep@ == "; "@);
                parse_pairs(cs.as_slice(), &sep)
            },
            None => Fields::new(),
        };
        let (body, end) = match Request::read_body(input, closed, q, &headers) {
            Ok(x) => x,
            Err(None) => return Parsed::Incomplete,
            Err(Some(s)) => return Parsed::Reject(s),
        };
        let req = Request { method, target, version, body, headers, cookies };
        Parsed::Done(req, end)
    }

    /// Reads the body that `headers` announce, from `pos`: the body and the position
    /// after it, or `Err(None)` where more bytes are needed, or the status to refuse the
    /// request with.
    fn read_body(input: &[u8], closed: bool, pos: usize, headers: &Headers) -> (r: Result<
        (Vec<u8>, usize),
        Option<Status>,
    >)
        requires
            pos <= input@.len(),
        ensures
            r matches Ok((b, e)) ==> body_from(input@, closed, pos as int, headers@) == BodyPhase::Body(
                b@,
                e as int,
            ) && e <= input@.len(),
            r matches Err(None) ==> body_from(input@, closed, pos as int, headers@) is Incomplete,
            r matches Err(Some(s)) ==> body_from(input@, closed, pos as int, headers@)
                == BodyPhase::Reject(s.code_spec()) && !(s is Other),
    {
        proof {
            reveal_strlit("chunked");
        }
        match headers.get("transfer-encoding") {
            Some(te) => {
                let lowered = lowercase(te.as_str());
                if !str_eq(lowered.as_str(), "chunked") {
                    return Err(Some(Status::BadRequest));
                }
                match read_chunks(input, pos) {
                    ChunkRead::Complete(b, e) => Ok((b, e)),
                    ChunkRead::NeedMore => if closed {
                        Err(Some(Status::BadRequest))
                    } else {
                        Err(None)
                    },
                    ChunkRead::Bad => Err(Some(Status::BadRequest)),
                }
            },
            None => match headers.get("content-length") {
                Some(cl) => {
                    let cs = crate::text::chars_of(cl.as_str());
                    match parse_decimal_exec(cs.as_slice()) {
                        None => Err(Some(Status::BadRequest)),
                        Some(n) => match read_bytes(input, pos, n) {
                            Some(b) => {
                                assert(input@.len() == input.len());
                                Ok((b, pos + n))
                            },
                            None => if closed {
                                Err(Some(Status::InternalServerError))
                            } else {
                                Err(None)
                            },
                        },
                    }
                },
                None => Ok((Vec::new(), pos)),
            },
        }
    }
}

} // verus!
