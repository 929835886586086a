//! The response writer: status line and headers once, then the body as chunks.
use vstd::prelude::*;

use crate::cookie::{cookie_text, Cookie};
use crate::date::format_time;
use crate::fields::{insert_pair, Fields, Pairs};
use crate::headers::{lower_of, lowercase, Headers};
use crate::status::Status;
use crate::text::{hex_lower, push_hex, push_str, str_eq, string_of};
use crate::version::{render_version, Version};

verus! {

/// The protocol version that the server speaks, `HTTP/1.1`.
pub open spec fn server_version() -> Version {
    Version { major: 1, minor: 1 }
}

/// The protocol version that the server speaks, `HTTP/1.1`.
pub fn server_version_exec() -> (r: Version)
    ensures
        r == server_version(),
{
    Version { major: 1, minor: 1 }
}

/// Whether `name` is, ignoring case, one of the header names that the library writes
/// itself and that handlers may not set.
pub open spec fn is_forbidden(name: Seq<char>) -> bool {
    let n = lower_of(name);
    n == lower_of("Transfer-Encoding"@) || n == lower_of("Content-Length"@) || n == lower_of(
        "Connection"@,
    ) || n == lower_of("Keep-Alive"@) || n == lower_of("Set-Cookie"@) || n == lower_of("Date"@)
        || n == lower_of("Host"@)
}

/// Whether `name` is one that handlers may not set (see [`is_forbidden`]).
pub fn is_forbidden_header(name: &str) -> (r: bool)
    ensures
        r == is_forbidden(name@),
{
    let n = lowercase(name);
    let n = n.as_str();
    str_eq(n, lowercase("Transfer-Encoding").as_str()) || str_eq(
        n,
        lowercase("Content-Length").as_str(),
    ) || str_eq(n, lowercase("Connection").as_str()) || str_eq(
        n,
        lowercase("Keep-Alive").as_str(),
    ) || str_eq(n, lowercase("Set-Cookie").as_str()) || str_eq(n, lowercase("Date").as_str())
        || str_eq(n, lowercase("Host").as_str())
}

/// One `name: value` line per header.
pub open spec fn header_lines(h: Pairs) -> Seq<char>
    decreases h.len(),
{
    if h.len() == 0 {
        Seq::empty()
    } else {
        header_lines(h.drop_last()) + h.last().0 + ": "@ + h.last().1 + "\r\n"@
    }
}

/// One `Set-Cookie` line per cookie.
pub open spec fn cookie_lines(cs: Seq<Cookie>, now: u64) -> Seq<char>
    decreases cs.len(),
{
    if cs.len() == 0 {
        Seq::empty()
    } else {
        cookie_lines(cs.drop_last(), now) + "Set-Cookie: "@ + cookie_text(cs.last(), now) + "\r\n"@
    }
}

/// The head of a response: the status line, the headers, the cookies and an empty line.
pub open spec fn head_text(status: Status, h: Pairs, cs: Seq<Cookie>, now: u64) -> Seq<char> {
    render_version(server_version()) + seq![' '] + status.text_spec() + "\r\n"@ + header_lines(h)
        + cookie_lines(cs, now) + "\r\n"@
}

/// The chunk that carries `m`: its length in bytes in hex, then the text; nothing for
/// an empty `m`.
pub open spec fn chunk_text(m: Seq<char>) -> Seq<char> {
    let n = vstd::utf8::encode_utf8(m).len();
    if n == 0 {
        Seq::empty()
    } else {
        hex_lower(n) + "\r\n"@ + m + "\r\n"@
    }
}

/// The last chunk, which ends the body.
pub open spec fn last_chunk() -> Seq<char> {
    "0\r\n\r\n"@
}

/// A response under way. What it writes is text; the bytes on the wire are its UTF-8
/// encoding. Written text waits in the response until taken with
/// [`Response::take_output`] (or returned by [`Response::end`]).
pub struct Response {
    status: Status,
    sent_status: bool,
    headers: Headers,
    sent_headers: bool,
    cookies: Vec<Cookie>,
    now: u64,
    pending: Vec<char>,
    written: Ghost<Seq<char>>,
}

impl Response {
    /// The status that the status line will carry (or carried).
    pub closed spec fn status_spec(&self) -> Status {
        self.status
    }

    /// The headers to send.
    pub closed spec fn headers_spec(&self) -> Pairs {
        self.headers@
    }

    /// The cookies to send.
    pub closed spec fn cookies_spec(&self) -> Seq<Cookie> {
        self.cookies@
    }

    /// The time the response was made, in seconds after the Unix epoch.
    pub closed spec fn now_spec(&self) -> u64 {
        self.now
    }

    /// Whether the status line has been written.
    pub closed spec fn status_sent(&self) -> bool {
        self.sent_status
    }

    /// Whether the head has been written.
    pub closed spec fn headers_sent(&self) -> bool {
        self.sent_headers
    }

    /// All text written so far, taken or not.
    pub closed spec fn written_spec(&self) -> Seq<char> {
        self.written@
    }

    /// Text written and not taken yet.
    pub closed spec fn pending_spec(&self) -> Seq<char> {
        self.pending@
    }

    /// The head if it is still to be written, else nothing.
    pub open spec fn unsent_head(&self) -> Seq<char> {
        if self.headers_sent() {
            Seq::empty()
        } else {
            self.head_spec()
        }
    }

    /// The head as it would be written now.
    pub open spec fn head_spec(&self) -> Seq<char> {
        head_text(self.status_spec(), self.headers_spec(), self.cookies_spec(), self.now_spec())
    }

    /// Header and cookie lists are well formed; nothing is written before the head,
    /// which is written with the status line.
    pub closed spec fn wf(&self) -> bool {
        &&& self.headers.wf()
        &&& forall|i: int, j: int|
            0 <= i < j < self.cookies@.len() ==> self.cookies@[i].name@ != self.cookies@[j].name@
        &&& self.sent_status == self.sent_headers
        &&& !self.sent_headers ==> self.written@.len() == 0
        &&& self.sent_headers ==> self.written@.len() >= 9 && self.written@.take(9)
            == "HTTP/1.1 "@
        &&& self.pending@.len() <= self.written@.len()
        &&& self.written@.skip(self.written@.len() - self.pending@.len()) == self.pending@
    }

    /// A fresh response with status `200 OK`, the headers `Transfer-Encoding: chunked` and
    /// `Date` (the date of `now`, in seconds after the Unix epoch, where it can be
    /// written), and no cookies.
    pub fn new(now: u64) -> (r: Response)
        ensures
            r.wf(),
            r.status_spec() == Status::OK,
            !r.headers_sent(),
            r.cookies_spec().len() == 0,
            r.now_spec() == now,
            r.headers_spec() == Response::new_headers(now),
            r.written_spec().len() == 0,
            r.pending_spec().len() == 0,
    {
        let mut headers = Fields::new();
        proof {
            reveal_strlit("Transfer-Encoding");
            reveal_strlit("Date");
        }
        headers.insert(String::from_str("Transfer-Encoding"), String::from_str("chunked"));
        assert(headers@ == seq![("Transfer-Encoding"@, "chunked"@)]);
        if now <= i64::MAX as u64 {
            match format_time(now as i64) {
                Some(d) => {
                    let ghost dv = d@;
                    assert("Date"@ != "Transfer-Encoding"@) by {
                        assert("Date"@.len() != "Transfer-Encoding"@.len());
                    }
                    assert(headers@.drop_last() =~= Seq::<(Seq<char>, Seq<char>)>::empty());
                    assert(crate::fields::key_index(headers@.drop_last(), "Date"@) == -1);
                    assert(headers@.last().0 == "Transfer-Encoding"@);
                    assert(crate::fields::key_index(headers@, "Date"@) == -1);
                    headers.insert(String::from_str("Date"), d);
                    assert(headers@ == seq![("Transfer-Encoding"@, "chunked"@), ("Date"@, dv)]);
                },
                None => {},
            }
        }
        let r = Response {
            status: Status::OK,
            sent_status: false,
            headers,
            sent_headers: false,
            cookies: Vec::new(),
            now,
            pending: Vec::new(),
            written: Ghost(Seq::empty()),
        };
        assert(r.written@.skip(0) == r.pending@);
        r
    }

    /// The protocol version of the response, `HTTP/1.1`.
    pub fn version(&self) -> (r: Version)
        ensures
            r == server_version(),
    {
        server_version_exec()
    }

    /// Sets the status, as long as the status line has not been written; after that it
    /// changes nothing.
    pub fn status(&mut self, status: Status)
        requires
            old(self).wf(),
        ensures
            final(self).wf(),
            old(self).status_sent() ==> *final(self) == *old(self),
            !old(self).status_sent() ==> final(self).status_spec() == status,
            final(self).headers_spec() == old(self).headers_spec(),
            final(self).cookies_spec() == old(self).cookies_spec(),
            final(self).now_spec() == old(self).now_spec(),
            final(self).headers_sent() == old(self).headers_sent(),
            final(self).status_sent() == old(self).status_sent(),
            final(self).written_spec() == old(self).written_spec(),
            final(self).pending_spec() == old(self).pending_spec(),
    {
        if !self.sent_status {
            self.status = status;
        }
    }

    /// Adds a cookie, replacing any cookie of the same name.
    pub fn set_cookie(&mut self, cookie: Cookie)
        requires
            old(self).wf(),
        ensures
            final(self).wf(),
            exists|i: int|
                0 <= i < final(self).cookies_spec().len() && final(self).cookies_spec()[i]
                    == cookie,
            forall|i: int|
                0 <= i < final(self).cookies_spec().len() && final(self).cookies_spec()[i].name@
                    == cookie.name@ ==> final(self).cookies_spec()[i] == cookie,
            forall|c: Cookie|
                c.name@ != cookie.name@ ==> (old(self).cookies_spec().contains(c)
                    <==> final(self).cookies_spec().contains(c)),
            final(self).status_spec() == old(self).status_spec(),
            final(self).headers_spec() == old(self).headers_spec(),
            final(self).now_spec() == old(self).now_spec(),
            final(self).headers_sent() == old(self).headers_sent(),
            final(self).status_sent() == old(self).status_sent(),
            final(self).written_spec() == old(self).written_spec(),
            final(self).pending_spec() == old(self).pending_spec(),
    {
        let mut i: usize = 0;
        while i < self.cookies.len()
            invariant
                self.wf(),
                *self == *old(self),
                i <= self.cookies@.len(),
                forall|j: int| 0 <= j < i ==> self.cookies@[j].name@ != cookie.name@,
            decreases self.cookies@.len() - i,
        {
            if self.cookies[i].name == cookie.name {
                let ghost prev = self.cookies@;
                self.cookies.set(i, cookie);
                assert forall|c: Cookie|
                    c.name@ != cookie.name@ implies (prev.contains(c) <==> self.cookies@.contains(c)) by {
                    if prev.contains(c) {
                        let k = choose|k: int| 0 <= k < prev.len() && prev[k] == c;
                        assert(self.cookies@[k] == c);
                    }
                    if self.cookies@.contains(c) {
                        let k = choose|k: int| 0 <= k < self.cookies@.len() && self.cookies@[k] == c;
                        assert(prev[k] == c);
                    }
                }
                assert(self.cookies@[i as int] == cookie);
                return;
            }
            i = i + 1;
        }
        let ghost prev = self.cookies@;
        self.cookies.push(cookie);
        assert forall|c: Cookie|
            c.name@ != cookie.name@ implies (prev.contains(c) <==> self.cookies@.contains(c)) by {
            if prev.contains(c) {
                let k = choose|k: int| 0 <= k < prev.len() && prev[k] == c;
                assert(self.cookies@[k] == c);
            }
            if self.cookies@.contains(c) {
                let k = choose|k: int| 0 <= k < self.cookies@.len() && self.cookies@[k] == c;
                assert(prev[k] == c);
            }
        }
        assert(self.cookies@[prev.len() as int] == cookie);
    }

    /// Sets a header, unless its name is forbidden (see [`is_forbidden`]): such a call
    /// changes nothing.
    pub fn set_header(&mut self, name: &str, value: &str)
        requires
            old(self).wf(),
        ensures
            final(self).wf(),
            is_forbidden(name@) ==> *final(self) == *old(self),
            !is_forbidden(name@) ==> final(self).headers_spec() == insert_pair(
                old(self).headers_spec(),
                name@,
                value@,
            ),
            final(self).status_spec() == old(self).status_spec(),
            final(self).cookies_spec() == old(self).cookies_spec(),
            final(self).now_spec() == old(self).now_spec(),
            final(self).headers_sent() == old(self).headers_sent(),
            final(self).status_sent() == old(self).status_sent(),
            final(self).written_spec() == old(self).written_spec(),
            final(self).pending_spec() == old(self).pending_spec(),
    {
        if !is_forbidden_header(name) {
            self.headers.insert(String::from_str(name), String::from_str(value));
        }
    }

    /// Sets each header of `other`, in order, as [`Response::set_header`] does.
    pub fn set_headers(&mut self, other: &Headers)
        requires
            old(self).wf(),
        ensures
            final(self).wf(),
            final(self).headers_spec() == set_headers_spec(old(self).headers_spec(), other@),
            final(self).status_spec() == old(self).status_spec(),
            final(self).cookies_spec() == old(self).cookies_spec(),
            final(self).now_spec() == old(self).now_spec(),
            final(self).headers_sent() == old(self).headers_sent(),
            final(self).status_sent() == old(self).status_sent(),
            final(self).written_spec() == old(self).written_spec(),
            final(self).pending_spec() == old(self).pending_spec(),
    {
        let mut i: usize = 0;
        while i < other.len()
            invariant
                self.wf(),
                i <= other@.len(),
                self.headers_spec() == set_headers_spec(old(self).headers_spec(), other@.take(i as int)),
                self.status_spec() == old(self).status_spec(),
                self.cookies_spec() == old(self).cookies_spec(),
                self.now_spec() == old(self).now_spec(),
                self.headers_sent() == old(self).headers_sent(),
                self.status_sent() == old(self).status_sent(),
                self.written_spec() == old(self).written_spec(),
                self.pending_spec() == old(self).pending_spec(),
            decreases other@.len() - i,
        {
            let (k, v) = other.entry(i);
            self.set_header(k.as_str(), v.as_str());
            assert(other@.take(i + 1).drop_last() == other@.take(i as int));
            i = i + 1;
        }
        assert(other@.take(other@.len() as int) == other@);
    }

    /// The headers to send.
    pub fn get_headers(&self) -> (r: &Headers)
        ensures
            r@ == self.headers_spec(),
    {
        &self.headers
    }

    /// Takes the text written and not taken yet.
    pub fn take_output(&mut self) -> (r: String)
        requires
            old(self).wf(),
        ensures
            final(self).wf(),
            r@ == old(self).pending_spec(),
            final(self).pending_spec().len() == 0,
            final(self).written_spec() == old(self).written_spec(),
            final(self).status_spec() == old(self).status_spec(),
            final(self).headers_spec() == old(self).headers_spec(),
            final(self).cookies_spec() == old(self).cookies_spec(),
            final(self).now_spec() == old(self).now_spec(),
            final(self).headers_sent() == old(self).headers_sent(),
            final(self).status_sent() == old(self).status_sent(),
    {
        let r = string_of(self.pending.as_slice());
        self.pending = Vec::new();
        assert(self.written@.skip(self.written@.len() as int) == Seq::<char>::empty());
        r
    }

    /// Writes `text`.
    fn emit(&mut self, text: &[char])
        requires
            old(self).wf() || (old(self).written@.len() == 0 && !old(self).sent_headers),
            old(self).pending@.len() <= old(self).written@.len(),
            old(self).written@.skip(old(self).written@.len() - old(self).pending@.len())
                == old(self).pending@,
        ensures
            final(self).written@ == old(self).written@ + text@,
            final(self).pending@ == old(self).pending@ + text@,
            final(self).pending@.len() <= final(self).written@.len(),
            final(self).written@.skip(final(self).written@.len() - final(self).pending@.len())
                == final(self).pending@,
            final(self).status == old(self).status,
            final(self).sent_status == old(self).sent_status,
            final(self).sent_headers == old(self).sent_headers,
            final(self).headers == old(self).headers,
            final(self).cookies == old(self).cookies,
            final(self).now == old(self).now,
    {
        let ghost w = self.written@;
        let ghost p = self.pending@;
        self.written = Ghost(self.written@ + text@);
        self.pending.extend_from_slice(text);
        assert((w + text@).skip((w + text@).len() - (p + text@).len()) =~= p + text@) by {
            assert(w.skip(w.len() - p.len()) == p);
            assert forall|i: int| 0 <= i < (p + text@).len() implies (w + text@).skip(
                (w + text@).len() - (p + text@).len(),
            )[i] == (p + text@)[i] by {
                if i < p.len() {
                    assert(w.skip(w.len() - p.len())[i] == p[i]);
                }
            }
        }
    }

    /// The head as it stands: status line, headers, cookies, empty line.
    fn head(&self) -> (r: Vec<char>)
        ensures
            r@ == self.head_spec(),
    {
        let mut out: Vec<char> = Vec::new();
        let v = server_version_exec().to_string();
        push_str(&mut out, v.as_str());
        out.push(' ');
        let s = self.status.to_string();
        push_str(&mut out, s.as_str());
        proof {
            reveal_strlit("\r\n");
            reveal_strlit(": ");
            reveal_strlit("Set-Cookie: ");
        }
        push_str(&mut out, "\r\n");
        let ghost start = out@;
        let n = self.headers.len();
        let mut i: usize = 0;
        while i < n
            invariant
                n == self.headers@.len(),
                i <= n,
                out@ == start + header_lines(self.headers@.take(i as int)),
            decreases n - i,
        {
            let (k, v) = self.headers.entry(i);
            push_str(&mut out, k.as_str());
            push_str(&mut out, ": ");
            push_str(&mut out, v.as_str());
            push_str(&mut out, "\r\n");
            let ghost t = self.headers@.take(i + 1);
            assert(t.drop_last() == self.headers@.take(i as int));
            assert(out@ =~= start + header_lines(t));
            i = i + 1;
        }
        assert(self.headers@.take(n as int) == self.headers@);
        let ghost mid = out@;
        let m = self.cookies.len();
        let mut j: usize = 0;
        while j < m
            invariant
                m == self.cookies@.len(),
                j <= m,
                out@ == mid + cookie_lines(self.cookies@.take(j as int), self.now),
            decreases m - j,
        {
            push_str(&mut out, "Set-Cookie: ");
            let c = self.cookies[j].to_string(self.now);
            push_str(&mut out, c.as_str());
            push_str(&mut out, "\r\n");
            let ghost t = self.cookies@.take(j + 1);
            assert(t.drop_last() == self.cookies@.take(j as int));
            assert(out@ =~= mid + cookie_lines(t, self.now));
            j = j + 1;
        }
        assert(self.cookies@.take(m as int) == self.cookies@);
        push_str(&mut out, "\r\n");
        assert(out@ =~= self.head_spec());
        out
    }

    /// Writes the head, unless it was written already.
    fn send_headers(&mut self)
        requires
            old(self).wf(),
        ensures
            final(self).wf(),
            final(self).headers_sent(),
            final(self).written_spec() == old(self).written_spec() + old(self).unsent_head(),
            final(self).pending_spec() == old(self).pending_spec() + old(self).unsent_head(),
            final(self).status_spec() == old(self).status_spec(),
            final(self).headers_spec() == old(self).headers_spec(),
            final(self).cookies_spec() == old(self).cookies_spec(),
            final(self).now_spec() == old(self).now_spec(),
    {
        if !self.sent_headers {
            let h = self.head();
            proof {
                reveal_strlit("HTTP/1.1 ");
                reveal_strlit("HTTP/");
                assert(crate::text::decimal(1) == seq!['1']);
                assert(h@.take(9) =~= "HTTP/1.1 "@);
            }
            self.emit(h.as_slice());
            self.sent_status = true;
            self.sent_headers = true;
            assert(self.written@.take(9) =~= h@.take(9));
        } else {
            assert(old(self).head_spec() == old(self).head_spec());
            assert(self.written@ == self.written@ + Seq::<char>::empty());
            assert(self.pending@ == self.pending@ + Seq::<char>::empty());
        }
    }

    /// Writes `message` as one chunk, after the head if that is not written yet. An empty
    /// message writes nothing: an empty chunk would end the body.
    pub fn send(&mut self, message: &str)
        requires
            old(self).wf(),
        ensures
            final(self).wf(),
            vstd::utf8::encode_utf8(message@).len() == 0 ==> *final(self) == *old(self),
            vstd::utf8::encode_utf8(message@).len() > 0 ==> final(self).headers_sent(),
            vstd::utf8::encode_utf8(message@).len() > 0 ==> final(self).written_spec() == old(
                self,
            ).written_spec() + old(self).unsent_head() + chunk_text(message@),
            vstd::utf8::encode_utf8(message@).len() > 0 ==> final(self).pending_spec() == old(
                self,
            ).pending_spec() + old(self).unsent_head() + chunk_text(message@),
            final(self).status_spec() == old(self).status_spec(),
            final(self).headers_spec() == old(self).headers_spec(),
            final(self).cookies_spec() == old(self).cookies_spec(),
            final(self).now_spec() == old(self).now_spec(),
    {
        let bytes = message.as_bytes();
        let n = bytes.len();
        if n != 0 {
            self.send_headers();
            let mut chunk: Vec<char> = Vec::new();
            push_hex(&mut chunk, n);
            proof {
                reveal_strlit("\r\n");
            }
            push_str(&mut chunk, "\r\n");
            push_str(&mut chunk, message);
            push_str(&mut chunk, "\r\n");
            assert(chunk@ =~= chunk_text(message@));
            let ghost w = self.written@;
            self.emit(chunk.as_slice());
            assert(self.written@.take(9) =~= w.take(9));
            assert(self.written@ == w + chunk_text(message@));
        }
    }

    /// Ends the response: writes the head if it is not written yet, then the last chunk.
    /// Returns the text not taken yet.
    pub fn end(self) -> (r: String)
        requires
            self.wf(),
        ensures
            r@ == self.pending_spec() + self.unsent_head() + last_chunk(),
    {
        let mut this = self;
        this.send_headers();
        proof {
            reveal_strlit("0\\r\\n\\r\\n");
        }
        let tail = ['0', '\r', '\n', '\r', '\n'];
        assert(tail@ == last_chunk()) by {
            reveal_strlit("0\r\n\r\n");
        }
        this.emit(&tail);
        string_of(this.pending.as_slice())
    }

    /// Writes `message` as a chunk (as [`Response::send`]), then ends the response (as
    /// [`Response::end`]). Returns the text not taken yet.
    pub fn end_with(self, message: &str) -> (r: String)
        requires
            self.wf(),
        ensures
            r@ == self.pending_spec() + self.unsent_head() + chunk_text(message@) + last_chunk(),
    {
        let mut this = self;
        this.send(message);
        proof {
            if vstd::utf8::encode_utf8(message@).len() == 0 {
                assert(chunk_text(message@) == Seq::<char>::empty());
            }
        }
        this.end()
    }

    /// A response with status `status` and no body, ended at once; returns its text.
    pub fn quick(status: Status, now: u64) -> (r: String)
        ensures
            r@ == head_text(status, Response::new_headers(now), Seq::empty(), now) + last_chunk(),
    {
        let mut response = Response::new(now);
        response.status(status);
        response.end()
    }
}

/// The headers that [`Response::new`] starts with at time `now`.
impl Response {
    pub open spec fn new_headers(now: u64) -> Pairs {
        if now <= i64::MAX && crate::date::imf_fixdate(now as int) is Some {
            seq![("Transfer-Encoding"@, "chunked"@), ("Date"@, crate::date::imf_fixdate(now as int)->0)]
        } else {
            seq![("Transfer-Encoding"@, "chunked"@)]
        }
    }
}

/// Whatever a handler has written, ending the response completes a text that starts
/// with the status line's `HTTP/1.1 ` and ends with the last chunk `0\r\n\r\n`.
pub proof fn lemma_response_framing(r: Response)
    requires
        r.wf(),
    ensures
        ({
            let whole = r.written_spec() + r.unsent_head() + last_chunk();
            &&& whole.len() >= 14
            &&& whole.take(9) == "HTTP/1.1 "@
            &&& whole.skip(whole.len() - 5) == last_chunk()
        }),
{
    reveal_strlit("HTTP/1.1 ");
    reveal_strlit("HTTP/");
    reveal_strlit("0\r\n\r\n");
    let whole = r.written_spec() + r.unsent_head() + last_chunk();
    if r.headers_sent() {
        assert(whole.take(9) =~= r.written_spec().take(9));
    } else {
        assert(crate::text::decimal(1) == seq!['1']);
        assert(r.written_spec().len() == 0);
        assert(r.head_spec().take(9) =~= "HTTP/1.1 "@);
        assert(whole.take(9) =~= r.head_spec().take(9));
    }
    assert(whole.skip(whole.len() - 5) =~= last_chunk());
}

/// `h` with each pair of `other` set in order, forbidden names skipped.
pub open spec fn set_headers_spec(h: Pairs, other: Pairs) -> Pairs
    decreases other.len(),
{
    if other.len() == 0 {
        h
    } else {
        let prev = set_headers_spec(h, other.drop_last());
        if is_forbidden(other.last().0) {
            prev
        } else {
            insert_pair(prev, other.last().0, other.last().1)
        }
    }
}

} // verus!
