//! Handler registration, routing, and the per-connection decisions of the server.
use vstd::prelude::*;

use crate::fields::{lookup, Pairs};
use crate::headers::{lower_of, lowercase, trim, trim_exec, Headers};
use crate::request::{request_outcome, Outcome, Parsed, Request, RequestModel};
use crate::response::{head_text, last_chunk, Response};
use crate::status::{Method, Status};
use crate::text::{chars_of, find_chars, split, split_once, str_eq, string_of};
use crate::version::{parse_decimal, parse_decimal_exec};

verus! {

/// Which requests at a path a handler takes.
#[derive(PartialEq, Eq, Structural, Clone, Copy, Debug)]
pub enum HandlerMethod {
    /// Any request whose path lies under the handler's path (tried after the exact
    /// handlers).
    Directory,
    /// Requests of one method at exactly the handler's path.
    Specific(Method),
    /// Requests of any method at exactly the handler's path.
    Any,
}

/// The state of a connection that the server's decisions read and change.
#[derive(PartialEq, Eq, Structural, Clone, Copy, Debug)]
pub struct Connection {
    /// Whether to close the connection after the current response.
    pub close: bool,
    /// Idle timeout, in seconds.
    pub timeout: u64,
    /// How many requests the connection may carry.
    pub max_requests: usize,
    /// When the last request arrived, in seconds after the Unix epoch.
    pub inactive_since: u64,
    /// How many requests the connection has carried.
    pub requests_received: usize,
}

/// The largest `max` that a client may ask for in `Keep-Alive`.
pub open spec fn max_requests_cap() -> usize {
    20
}

/// `c` after one `name=value` parameter of a `Keep-Alive` header: `timeout` may only
/// shorten the timeout, `max` may set the request limit up to 20, other names change
/// nothing; `None` when the parameter has no `=` or its value is not a number.
pub open spec fn apply_param(c: Connection, param: Seq<char>) -> Option<Connection> {
    match split_once(param, seq!['=']) {
        None => None,
        Some((k, v)) => match parse_decimal(trim(v)) {
            None => None,
            Some(n) => if trim(k) == "timeout"@ {
                if n <= c.timeout {
                    Some(Connection { timeout: n as u64, ..c })
                } else {
                    Some(c)
                }
            } else if trim(k) == "max"@ {
                if n <= max_requests_cap() {
                    Some(Connection { max_requests: n, ..c })
                } else {
                    Some(c)
                }
            } else {
                Some(c)
            },
        },
    }
}

/// `c` after the parameters `params`, in order.
pub open spec fn apply_params(c: Connection, params: Seq<Seq<char>>) -> Option<Connection>
    decreases params.len(),
{
    if params.len() == 0 {
        Some(c)
    } else {
        match apply_params(c, params.drop_last()) {
            None => None,
            Some(d) => apply_param(d, params.last()),
        }
    }
}

/// `c` after one request header: `Connection: close` closes, `Keep-Alive` carries
/// comma-separated parameters (see [`apply_param`]); names and values are compared in
/// lower case.
pub open spec fn apply_header(c: Connection, name: Seq<char>, value: Seq<char>) -> Option<
    Connection,
> {
    let n = lower_of(name);
    let v = lower_of(value);
    if n == "connection"@ {
        if v == "close"@ {
            Some(Connection { close: true, ..c })
        } else {
            Some(c)
        }
    } else if n == "keep-alive"@ {
        apply_params(c, split(v, seq![',']))
    } else {
        Some(c)
    }
}

/// `c` after the headers `h`, in order; `None` when a `Keep-Alive` parameter is bad.
pub open spec fn apply_headers(c: Connection, h: Pairs) -> Option<Connection>
    decreases h.len(),
{
    if h.len() == 0 {
        Some(c)
    } else {
        match apply_headers(c, h.drop_last()) {
            None => None,
            Some(d) => apply_header(d, h.last().0, h.last().1),
        }
    }
}

impl Connection {
    /// A fresh connection at time `now`: keep-alive, a 60 second timeout, at most 5
    /// requests.
    pub fn new(now: u64) -> (r: Connection)
        ensures
            r == (Connection {
                close: false,
                timeout: 60,
                max_requests: 5,
                inactive_since: now,
                requests_received: 0,
            }),
    {
        Connection {
            close: false,
            timeout: 60,
            max_requests: 5,
            inactive_since: now,
            requests_received: 0,
        }
    }

    /// Whether the connection has waited for bytes longer than its timeout at time
    /// `now`.
    pub fn idle_expired(&self, now: u64) -> (r: bool)
        ensures
            r == (now > self.inactive_since && now - self.inactive_since > self.timeout),
    {
        now > self.inactive_since && now - self.inactive_since > self.timeout
    }

    /// Applies one `Keep-Alive` parameter (see [`apply_param`]).
    fn apply_param_exec(&mut self, param: &[char]) -> (r: bool)
        ensures
            r <==> apply_param(*old(self), param@) is Some,
            r ==> apply_param(*old(self), param@) == Some(*final(self)),
            !r ==> *final(self) == *old(self),
    {
        let eq = ['='];
        assert(eq@ == seq!['=']);
        match find_chars(param, &eq, 0) {
            None => false,
            Some(k) => {
                let (key, value) = param.split_at(k);
                let value = value.split_at(1).1;
                assert(value@ == param@.skip(k + 1));
                let v = trim_exec(value);
                match parse_decimal_exec(v.as_slice()) {
                    None => false,
                    Some(n) => {
                        let key = trim_exec(key);
                        let key = string_of(key.as_slice());
                        proof {
                            reveal_strlit("timeout");
                            reveal_strlit("max");
                        }
                        if str_eq(key.as_str(), "timeout") {
                            if n as u64 <= self.timeout {
                                self.timeout = n as u64;
                            }
                        } else if str_eq(key.as_str(), "max") {
                            if n <= 20 {
                                self.max_requests = n;
                            }
                        }
                        true
                    },
                }
            },
        }
    }

    /// Applies the comma-separated parameters of a `Keep-Alive` value.
    fn apply_params_exec(&mut self, value: &[char]) -> (r: bool)
        ensures
            r <==> apply_params(*old(self), split(value@, seq![','])) is Some,
            r ==> apply_params(*old(self), split(value@, seq![','])) == Some(*final(self)),
    {
        let comma = [','];
        assert(comma@ == seq![',']);
        let mut pos: usize = 0;
        let ghost all = split(value@, seq![',']);
        let ghost mut done: Seq<Seq<char>> = Seq::empty();
        assert(value@.skip(0) == value@);
        loop
            invariant
                comma@ == seq![','],
                pos <= value@.len(),
                all == split(value@, seq![',']),
                done + split(value@.skip(pos as int), seq![',']) == all,
                apply_params(*old(self), done) == Some(*self),
            decreases value@.len() - pos,
        {
            let rest = value.split_at(pos).1;
            assert(rest@ == value@.skip(pos as int));
            let found = find_chars(rest, &comma, 0);
            let end = match found {
                Some(k) => k,
                None => rest.len(),
            };
            let piece = rest.split_at(end).0;
            assert(piece@ == rest@.take(end as int));
            let ghost prev = done;
            proof {
                done = done.push(piece@);
                assert(done.drop_last() == prev);
            }
            proof {
                match found {
                    Some(k) => {
                        assert(split(rest@, seq![',']) == seq![piece@] + split(
                            rest@.skip(k + 1),
                            seq![','],
                        ));
                    },
                    None => {
                        assert(piece@ == rest@);
                        assert(split(rest@, seq![',']) == seq![rest@]);
                    },
                }
                assert(split(rest@, seq![','])[0] == piece@);
                assert(all.take(done.len() as int) =~= done);
            }
            if !self.apply_param_exec(piece) {
                proof {
                    lemma_apply_params_none(*old(self), done, all);
                }
                return false;
            }
            match found {
                Some(k) => {
                    assert(k + 1 <= rest@.len() && rest@.len() == value@.len() - pos);
                    assert(value@.len() == value.len());
                    assert(split(rest@, seq![',']) == seq![piece@] + split(rest@.skip(k + 1), seq![',']));
                    assert(rest@.skip(k + 1) == value@.skip(pos + k + 1));
                    assert(done + split(value@.skip(pos + k + 1), seq![',']) == all) by {
                        assert(prev + (seq![piece@] + split(rest@.skip(k + 1), seq![',']))
                            == prev.push(piece@) + split(rest@.skip(k + 1), seq![',']));
                    }
                    pos = pos + k + 1;
                },
                None => {
                    assert(piece@ == rest@);
                    assert(split(rest@, seq![',']) == seq![rest@]);
                    assert(done == all);
                    return true;
                },
            }
        }
    }

    /// Applies the headers of a request to the connection, in order (see
    /// [`apply_headers`]): `Connection: close` closes it, `Keep-Alive` may shorten its
    /// timeout and set its request limit. `Err(400 Bad Request)`, with the connection
    /// unchanged, when a `Keep-Alive` parameter is malformed.
    pub fn handle_headers(&mut self, headers: &Headers) -> (r: Result<(), Status>)
        ensures
            r is Ok <==> apply_headers(*old(self), headers@) is Some,
            r is Ok ==> apply_headers(*old(self), headers@) == Some(*final(self)),
            r matches Err(s) ==> s == Status::BadRequest && *final(self) == *old(self),
    {
        let start = *self;
        let mut c = *self;
        let n = headers.len();
        let mut i: usize = 0;
        proof {
            reveal_strlit("connection");
            reveal_strlit("close");
            reveal_strlit("keep-alive");
        }
        while i < n
            invariant
                n == headers@.len(),
                i <= n,
                start == *old(self),
                *self == *old(self),
                apply_headers(start, headers@.take(i as int)) == Some(c),
            decreases n - i,
        {
            let (name, value) = headers.entry(i);
            let ln = lowercase(name.as_str());
            let lv = lowercase(value.as_str());
            let ghost t = headers@.take(i + 1);
            assert(t.drop_last() == headers@.take(i as int));
            assert(t.last() == headers@[i as int]);
            if str_eq(ln.as_str(), "connection") {
                if str_eq(lv.as_str(), "close") {
                    c.close = true;
                }
            } else if str_eq(ln.as_str(), "keep-alive") {
                let vc = chars_of(lv.as_str());
                if !c.apply_params_exec(vc.as_slice()) {
                    proof {
                        lemma_apply_headers_none(start, headers@, i as int);
                    }
                    return Err(Status::BadRequest);
                }
            }
            i = i + 1;
        }
        assert(headers@.take(n as int) == headers@);
        *self = c;
        Ok(())
    }
}

proof fn lemma_params_keep_close(c: Connection, params: Seq<Seq<char>>)
    ensures
        apply_params(c, params) matches Some(d) ==> d.close == c.close,
    decreases params.len(),
{
    if params.len() > 0 {
        lemma_params_keep_close(c, params.drop_last());
    }
}

proof fn lemma_headers_keep_close(c: Connection, h: Pairs)
    requires
        c.close,
    ensures
        apply_headers(c, h) matches Some(d) ==> d.close,
    decreases h.len(),
{
    if h.len() > 0 {
        lemma_headers_keep_close(c, h.drop_last());
        if let Some(d) = apply_headers(c, h.drop_last()) {
            lemma_params_keep_close(d, split(lower_of(h.last().1), seq![',']));
        }
    }
}

/// A request that carries `Connection: close` (in any case) leaves its connection
/// marked to close, once its headers are applied.
pub proof fn lemma_connection_close(c: Connection, h: Pairs, i: int)
    requires
        0 <= i < h.len(),
        lower_of(h[i].0) == "connection"@,
        lower_of(h[i].1) == "close"@,
        apply_headers(c, h) is Some,
    ensures
        apply_headers(c, h)->0.close,
    decreases h.len(),
{
    if i == h.len() - 1 {
        let prev = apply_headers(c, h.drop_last());
        assert(prev is Some);
        assert(apply_headers(c, h) == apply_header(prev->0, h.last().0, h.last().1));
    } else {
        let t = h.drop_last();
        assert(t[i] == h[i]);
        if apply_headers(c, t) is Some {
            lemma_connection_close(c, t, i);
            let d = apply_headers(c, t)->0;
            lemma_headers_keep_close(d, seq![h.last()]);
            assert(seq![h.last()].drop_last() =~= Seq::<(Seq<char>, Seq<char>)>::empty());
            lemma_params_keep_close(d, split(lower_of(h.last().1), seq![',']));
        }
    }
}

proof fn lemma_apply_params_none(c: Connection, done: Seq<Seq<char>>, all: Seq<Seq<char>>)
    requires
        apply_params(c, done) is None,
        done.len() <= all.len(),
        all.take(done.len() as int) == done,
    ensures
        apply_params(c, all) is None,
    decreases all.len() - done.len(),
{
    if done.len() < all.len() {
        let next = all.take(done.len() as int + 1);
        assert(next.drop_last() == done);
        lemma_apply_params_none(c, next, all);
    } else {
        assert(all == done);
    }
}

proof fn lemma_apply_headers_none(c: Connection, h: Pairs, i: int)
    requires
        0 <= i < h.len(),
        apply_headers(c, h.take(i + 1)) is None,
    ensures
        apply_headers(c, h) is None,
    decreases h.len() - i,
{
    if i + 1 < h.len() {
        assert(h.take(i + 2).drop_last() == h.take(i + 1));
        lemma_apply_headers_none(c, h, i + 1);
    } else {
        assert(h.take(i + 1) == h);
    }
}

/// The registered routes, as paths with the kind of handler.
pub type Routes = Seq<(Seq<char>, HandlerMethod)>;

/// How the scan of the handlers registered at exactly the request path ends.
pub enum ExactScan {
    /// Run the handler at this index.
    Invoke(int),
    /// The first exact handler is for another method: no handler runs.
    Stop,
    /// No exact handler decided; try the directory handlers.
    Continue,
}

/// Scanning, from index `i` in registration order, the handlers at exactly `path`: the
/// first one for `method` or for any method runs; the first one for another method stops
/// the scan; directory handlers are passed over.
pub open spec fn exact_scan(routes: Routes, path: Seq<char>, method: Method, i: int) -> ExactScan
    decreases routes.len() - i,
{
    if i < 0 || i >= routes.len() {
        ExactScan::Continue
    } else if routes[i].0 != path {
        exact_scan(routes, path, method, i + 1)
    } else {
        match routes[i].1 {
            HandlerMethod::Specific(m) => if m == method {
                ExactScan::Invoke(i)
            } else {
                ExactScan::Stop
            },
            HandlerMethod::Any => ExactScan::Invoke(i),
            HandlerMethod::Directory => exact_scan(routes, path, method, i + 1),
        }
    }
}

/// Whether `path.take(k)` is a slash-aligned prefix of the absolute `path`: `k` ends
/// the path or stands before a `/`.
pub open spec fn is_cut(path: Seq<char>, k: int) -> bool {
    1 <= k <= path.len() && path[0] == '/' && (k == path.len() || path[k] == '/')
}

/// The first index, from `j`, of a directory handler registered at `p`.
pub open spec fn first_directory(routes: Routes, p: Seq<char>, j: int) -> Option<int>
    decreases routes.len() - j,
{
    if j < 0 || j >= routes.len() {
        None
    } else if routes[j].0 == p && routes[j].1 == HandlerMethod::Directory {
        Some(j)
    } else {
        first_directory(routes, p, j + 1)
    }
}

/// Walking the slash-aligned prefixes of `path` from length `k` on, shortest first:
/// the first that has a directory handler gives that handler and the prefix length.
pub open spec fn prefix_scan(routes: Routes, path: Seq<char>, k: int) -> Option<(int, int)>
    decreases path.len() + 1 - k,
{
    if k < 1 || k > path.len() {
        None
    } else if is_cut(path, k) && first_directory(routes, path.take(k), 0) is Some {
        Some((first_directory(routes, path.take(k), 0)->0, k))
    } else {
        prefix_scan(routes, path, k + 1)
    }
}

/// The handler for a request of `method` at `path`, with the length of the directory
/// prefix that it was found under (`None` for an exact handler); `None` when no handler
/// takes the request.
pub open spec fn route(routes: Routes, path: Seq<char>, method: Method) -> Option<
    (int, Option<int>),
> {
    match exact_scan(routes, path, method, 0) {
        ExactScan::Invoke(i) => Some((i, None)),
        ExactScan::Stop => None,
        ExactScan::Continue => match prefix_scan(routes, path, 1) {
            Some((j, k)) => Some((j, Some(k))),
            None => None,
        },
    }
}

/// An optional `usize` as an optional integer.
pub open spec fn opt_int(k: Option<usize>) -> Option<int> {
    match k {
        Some(k) => Some(k as int),
        None => None,
    }
}

/// What the server does with a request that was read whole.
pub enum Step {
    /// Close the connection without a response.
    Close,
    /// Respond with this status, then close the connection.
    Reject(Status),
    /// Run the handler at this index with the request (whose target the router may have
    /// split); keep the connection open unless it is marked to close.
    Dispatch(usize, Request),
}

/// The decision for a request whose headers are `h`, on connection `c` (after it was
/// counted): the status to refuse it with, or `None` to route it.
pub open spec fn check_request(c: Connection, major: usize, minor: usize, h: Pairs) -> Option<
    usize,
> {
    if major != 1 {
        Some(505)
    } else if minor > 1 {
        Some(400)
    } else if minor < 1 {
        Some(426)
    } else if lookup(h, "host"@) is None {
        Some(400)
    } else if apply_headers(c, h) is None {
        Some(400)
    } else {
        None
    }
}

/// What the server decides for a request.
pub enum Decision {
    /// Close the connection without a response.
    Close,
    /// Respond with this status code, then close.
    Reject(usize),
    /// Run the handler at this index, with the length of the directory prefix that the
    /// path is split at (`None`: leave the target as it is).
    Dispatch(int, Option<int>),
}

/// The decision for a request of `method`, `version`, headers `h` and path `path` that
/// arrives on `c` at time `now`, with the connection after it. The request is counted;
/// past the limit the connection closes silently. A version other than 1.1, a missing
/// `Host` or a malformed `Keep-Alive` is refused; otherwise the headers are applied to
/// the connection and the request is routed, or refused with `404`.
pub open spec fn decide(
    routes: Routes,
    c: Connection,
    method: Method,
    version: crate::version::Version,
    h: Pairs,
    path: Seq<char>,
    now: u64,
) -> (Decision, Connection) {
    if c.requests_received + 1 > c.max_requests {
        (Decision::Close, c)
    } else {
        let c1 = Connection {
            inactive_since: now,
            requests_received: (c.requests_received + 1) as usize,
            ..c
        };
        match check_request(c1, version.major, version.minor, h) {
            Some(code) => (Decision::Reject(code), c1),
            None => {
                let c2 = apply_headers(c1, h)->0;
                match route(routes, path, method) {
                    None => (Decision::Reject(404), c2),
                    Some((i, k)) => (Decision::Dispatch(i, k), c2),
                }
            },
        }
    }
}

/// Whether `r` carries out decision `d` on `request`: the same status, or the same
/// handler with the request whose target is split at the prefix length (all else kept).
pub open spec fn step_matches(r: Step, d: Decision, request: Request) -> bool {
    match d {
        Decision::Close => r is Close,
        Decision::Reject(code) => r matches Step::Reject(s) && s.code_spec() == code && !(
        s is Other),
        Decision::Dispatch(i, k) => r matches Step::Dispatch(j, req) && j == i && req.method
            == request.method && req.version == request.version && req.headers@
            == request.headers@ && req.cookies@ == request.cookies@ && req.body@ == request.body@
            && req.target.queries@ == request.target.queries@ && req.target.queries.wf()
            == request.target.queries.wf() && match k {
            None => req.target.target_path@ == request.target.target_path@
                && req.target.relative_path@ == request.target.relative_path@,
            Some(k) => req.target.target_path@ == request.target.full_url_spec().take(k)
                && req.target.relative_path@ == request.target.full_url_spec().skip(k),
        },
    }
}

/// A server: where it listens, and its handlers in registration order.
pub struct Server<H> {
    /// The host name to listen on.
    pub hostname: String,
    /// The port to listen on.
    pub port: u16,
    handlers: Vec<(String, HandlerMethod, H)>,
}

impl<H> Server<H> {
    /// The host name.
    pub closed spec fn hostname_spec(&self) -> Seq<char> {
        self.hostname@
    }

    /// The port.
    pub closed spec fn port_spec(&self) -> u16 {
        self.port
    }

    /// The handler at index `i`, in registration order.
    pub closed spec fn handler_at(&self, i: int) -> H {
        self.handlers@[i].2
    }

    /// Whether `self` is `prev` with `handler` registered last, at `path` for `method`.
    pub open spec fn registered(
        &self,
        prev: &Server<H>,
        path: Seq<char>,
        method: HandlerMethod,
        handler: H,
    ) -> bool {
        &&& self.routes() == prev.routes().push((path, method))
        &&& self.handler_at(prev.routes().len() as int) == handler
        &&& forall|i: int| 0 <= i < prev.routes().len() ==> self.handler_at(i) == prev.handler_at(i)
        &&& self.hostname_spec() == prev.hostname_spec()
        &&& self.port_spec() == prev.port_spec()
    }

    /// The registered routes.
    pub closed spec fn routes(&self) -> Routes {
        self.handlers@.map_values(|e: (String, HandlerMethod, H)| (e.0@, e.1))
    }

    /// A server for `hostname` and `port`, with no handlers.
    pub fn new(hostname: &str, port: u16) -> (r: Server<H>)
        ensures
            r.hostname_spec() == hostname@,
            r.port_spec() == port,
            r.routes().len() == 0,
    {
        Server { hostname: String::from_str(hostname), port, handlers: Vec::new() }
    }

    fn append_handler(&mut self, path: &str, method: HandlerMethod, handler: H)
        ensures
            final(self).registered(old(self), path@, method, handler),
    {
        self.handlers.push((String::from_str(path), method, handler));
        assert(self.routes() =~= old(self).routes().push((path@, method)));
    }

    /// Registers a handler for requests of any method at `path`.
    pub fn on(&mut self, path: &str, handler: H)
        ensures
            final(self).registered(old(self), path@, HandlerMethod::Any, handler),
    {
        self.append_handler(path, HandlerMethod::Any, handler);
    }

    /// Registers a handler for `GET` requests at `path`.
    pub fn on_get(&mut self, path: &str, handler: H)
        ensures
            final(self).registered(old(self), path@, HandlerMethod::Specific(Method::GET), handler),
    {
        self.append_handler(path, HandlerMethod::Specific(Method::GET), handler);
    }

    /// Registers a handler for `HEAD` requests at `path`.
    pub fn on_head(&mut self, path: &str, handler: H)
        ensures
            final(self).registered(old(self), path@, HandlerMethod::Specific(Method::HEAD), handler),
    {
        self.append_handler(path, HandlerMethod::Specific(Method::HEAD), handler);
    }

    /// Registers a handler for `POST` requests at `path`.
    pub fn on_post(&mut self, path: &str, handler: H)
        ensures
            final(self).registered(old(self), path@, HandlerMethod::Specific(Method::POST), handler),
    {
        self.append_handler(path, HandlerMethod::Specific(Method::POST), handler);
    }

    /// Registers a handler for `PUT` requests at `path`.
    pub fn on_put(&mut self, path: &str, handler: H)
        ensures
            final(self).registered(old(self), path@, HandlerMethod::Specific(Method::PUT), handler),
    {
        self.append_handler(path, HandlerMethod::Specific(Method::PUT), handler);
    }

    /// Registers a handler for `DELETE` requests at `path`.
    pub fn on_delete(&mut self, path: &str, handler: H)
        ensures
            final(self).registered(old(self), path@, HandlerMethod::Specific(Method::DELETE), handler),
    {
        self.append_handler(path, HandlerMethod::Specific(Method::DELETE), handler);
    }

    /// Registers a directory handler for requests under `path`.
    pub fn on_directory(&mut self, path: &str, handler: H)
        ensures
            final(self).registered(old(self), path@, HandlerMethod::Directory, handler),
    {
        self.append_handler(path, HandlerMethod::Directory, handler);
    }

    /// The number of registered handlers.
    pub fn handler_count(&self) -> (r: usize)
        ensures
            r == self.routes().len(),
    {
        self.handlers.len()
    }

    /// The handler at index `i`, in registration order.
    pub fn handler(&self, i: usize) -> (r: &H)
        requires
            i < self.routes().len(),
        ensures
            *r == self.handler_at(i as int),
    {
        &self.handlers[i].2
    }

    fn path_eq(&self, i: usize, path: &[char]) -> (r: bool)
        requires
            i < self.routes().len(),
        ensures
            r == (self.routes()[i as int].0 == path@),
    {
        let s = string_of(path);
        str_eq(self.handlers[i].0.as_str(), s.as_str())
    }

    /// `Some(Some(i))` to run handler `i`, `Some(None)` to stop, `None` to go on to the
    /// directory handlers.
    fn exact_scan_exec(&self, path: &[char], method: Method) -> (r: Option<Option<usize>>)
        ensures
            r matches Some(Some(i)) ==> exact_scan(self.routes(), path@, method, 0)
                == ExactScan::Invoke(i as int),
            r matches Some(None) ==> exact_scan(self.routes(), path@, method, 0) is Stop,
            r is None ==> exact_scan(self.routes(), path@, method, 0) is Continue,
    {
        let n = self.handlers.len();
        let mut i: usize = 0;
        while i < n
            invariant
                n == self.routes().len(),
                i <= n,
                exact_scan(self.routes(), path@, method, i as int) == exact_scan(
                    self.routes(),
                    path@,
                    method,
                    0,
                ),
            decreases n - i,
        {
            if self.path_eq(i, path) {
                assert(self.routes()[i as int].1 == self.handlers@[i as int].1);
                match self.handlers[i].1 {
                    HandlerMethod::Specific(m) => {
                        if m == method {
                            return Some(Some(i));
                        } else {
                            return Some(None);
                        }
                    },
                    HandlerMethod::Any => {
                        return Some(Some(i));
                    },
                    HandlerMethod::Directory => {},
                }
            }
            i = i + 1;
        }
        None
    }

    fn first_directory_exec(&self, p: &[char]) -> (r: Option<usize>)
        ensures
            r matches Some(j) ==> first_directory(self.routes(), p@, 0) == Some(j as int),
            r is None ==> first_directory(self.routes(), p@, 0) is None,
    {
        let n = self.handlers.len();
        let mut j: usize = 0;
        while j < n
            invariant
                n == self.routes().len(),
                j <= n,
                first_directory(self.routes(), p@, j as int) == first_directory(
                    self.routes(),
                    p@,
                    0,
                ),
            decreases n - j,
        {
            assert(self.routes()[j as int].1 == self.handlers@[j as int].1);
            if self.path_eq(j, p) && self.handlers[j].1 == HandlerMethod::Directory {
                return Some(j);
            }
            j = j + 1;
        }
        None
    }

    /// Finds the handler for a request of `method` at `path` (see [`route`]).
    pub fn route_exec(&self, path: &[char], method: Method) -> (r: Option<(usize, Option<usize>)>)
        ensures
            r matches Some((i, k)) ==> route(self.routes(), path@, method) == Some(
                (i as int, opt_int(k)),
            ) && i < self.routes().len(),
            r is None ==> route(self.routes(), path@, method) is None,
            r matches Some((_, Some(k))) ==> 1 <= k <= path@.len(),
    {
        match self.exact_scan_exec(path, method) {
            Some(Some(i)) => {
                proof {
                    lemma_exact_scan_bounds(self.routes(), path@, method, 0);
                }
                return Some((i, None));
            },
            Some(None) => {
                return None;
            },
            None => {},
        }
        if path.len() == 0 || path[0] != '/' {
            proof {
                lemma_prefix_scan_none(self.routes(), path@, 1);
            }
            return None;
        }
        let mut k: usize = 1;
        while k < path.len()
            invariant
                1 <= k <= path@.len(),
                path@.len() > 0 && path@[0] == '/',
                exact_scan(self.routes(), path@, method, 0) is Continue,
                prefix_scan(self.routes(), path@, k as int) == prefix_scan(self.routes(), path@, 1),
            decreases path@.len() - k,
        {
            if path[k] == '/' {
                let p = vstd::slice::slice_subrange(path, 0, k);
                assert(p@ == path@.take(k as int));
                match self.first_directory_exec(p) {
                    Some(j) => {
                        proof {
                            lemma_first_directory_bounds(self.routes(), p@, 0);
                        }
                        return Some((j, Some(k)));
                    },
                    None => {},
                }
            }
            k = k + 1;
        }
        assert(path@.take(k as int) == path@);
        match self.first_directory_exec(path) {
            Some(j) => {
                proof {
                    lemma_first_directory_bounds(self.routes(), path@, 0);
                }
                Some((j, Some(k)))
            },
            None => {
                assert(prefix_scan(self.routes(), path@, k + 1) is None);
                None
            },
        }
    }
}

impl<H> Server<H> {
    /// Decides what to do with `request`, read whole on `conn` at time `now`. The
    /// request is counted (and the connection marked active); past the connection's
    /// request limit the connection closes silently. A version other than 1.1 is refused
    /// (`505` for another major version, `400` for a later minor one, `426` for an earlier
    /// one), as is a request without `Host` (`400`) or with a malformed `Keep-Alive`
    /// (`400`); otherwise the request headers are applied to the connection and the
    /// request is routed: to its handler, with its target split at the directory prefix
    /// that matched, or refused with `404`.
    pub fn handle_request(&self, conn: &mut Connection, request: Request, now: u64) -> (r: Step)
        requires
            request.headers.wf(),
        ensures
            ({
                let (d, c) = decide(
                    self.routes(),
                    *old(conn),
                    request.method,
                    request.version,
                    request.headers@,
                    request.target.full_url_spec(),
                    now,
                );
                &&& *final(conn) == c
                &&& step_matches(r, d, request)
            }),
    {
        if conn.requests_received >= conn.max_requests {
            return Step::Close;
        }
        conn.inactive_since = now;
        conn.requests_received = conn.requests_received + 1;
        if request.version.major != 1 {
            return Step::Reject(Status::HttpVersionNotSupported);
        } else if request.version.minor > 1 {
            return Step::Reject(Status::BadRequest);
        } else if request.version.minor < 1 {
            return Step::Reject(Status::UpgradeRequired);
        }
        proof {
            reveal_strlit("host");
        }
        if !request.headers.contains_key("host") {
            return Step::Reject(Status::BadRequest);
        }
        match conn.handle_headers(&request.headers) {
            Ok(_) => {},
            Err(s) => return Step::Reject(s),
        }
        let full = request.target.full_url();
        let path = chars_of(full.as_str());
        match self.route_exec(path.as_slice(), request.method) {
            None => Step::Reject(Status::NotFound),
            Some((i, None)) => Step::Dispatch(i, request),
            Some((i, Some(k))) => {
                let mut request = request;
                let (head, tail) = path.as_slice().split_at(k);
                request.target.target_path = string_of(head);
                request.target.relative_path = string_of(tail);
                Step::Dispatch(i, request)
            },
        }
    }
}

/// What the host does next on a connection.
pub enum Action {
    /// Read more bytes, then ask again.
    Wait,
    /// Close the connection without writing anything.
    Close,
    /// Write this text, then close the connection.
    Refuse(String),
    /// Drop the given number of bytes from the front of the input, and run the handler at
    /// the index with the request.
    Dispatch(usize, Request, usize),
}

/// Whether `t` is the text of an empty response with status code `code`, made at time
/// `now`.
pub open spec fn refusal(t: Seq<char>, code: usize, now: u64) -> bool {
    exists|s: Status|
        s.code_spec() == code && !(s is Other) && t == head_text(
            s,
            Response::new_headers(now),
            Seq::empty(),
            now,
        ) + last_chunk()
}

/// Whether `req` is the request of `m` with its path split at `k` (or left whole).
pub open spec fn dispatched(req: Request, m: RequestModel, k: Option<int>) -> bool {
    &&& req.method == m.method
    &&& req.version == m.version
    &&& req.headers@ == m.headers
    &&& req.cookies@ == m.cookies
    &&& req.body@ == m.body
    &&& req.target.queries@ == m.queries
    &&& req.headers.wf() && req.cookies.wf() && req.target.queries.wf()
    &&& match k {
        None => req.target.target_path@.len() == 0 && req.target.relative_path@ == m.path,
        Some(k) => req.target.target_path@ == m.path.take(k) && req.target.relative_path@
            == m.path.skip(k),
    }
}

impl<H> Server<H> {
    /// The next thing to do on connection `conn`, given the bytes `input` received and
    /// not yet used, whether the client has stopped sending (`closed`), and the time
    /// `now`. While a request is incomplete the host reads on, until the connection has
    /// been idle past its timeout (`408`). A request that cannot be read is refused with
    /// its status, or the connection is dropped; a whole request is decided as
    /// [`decide`] says.
    pub fn next_action(&self, conn: &mut Connection, input: &[u8], closed: bool, now: u64) -> (r:
        Action)
        ensures
            match request_outcome(input@, closed) {
                Outcome::Incomplete => *final(conn) == *old(conn) && if now > old(
                    conn,
                ).inactive_since && now - old(conn).inactive_since > old(conn).timeout {
                    r matches Action::Refuse(t) && refusal(t@, 408, now)
                } else {
                    r is Wait
                },
                Outcome::Drop => r is Close && *final(conn) == *old(conn),
                Outcome::Reject(code) => r matches Action::Refuse(t) && refusal(t@, code, now)
                    && *final(conn) == *old(conn),
                Outcome::Done(m, n) => {
                    let (d, c) = decide(
                        self.routes(),
                        *old(conn),
                        m.method,
                        m.version,
                        m.headers,
                        m.path,
                        now,
                    );
                    &&& *final(conn) == c
                    &&& match d {
                        Decision::Close => r is Close,
                        Decision::Reject(code) => r matches Action::Refuse(t) && refusal(
                            t@,
                            code,
                            now,
                        ),
                        Decision::Dispatch(i, k) => r matches Action::Dispatch(j, req, used) && j
                            == i && used == n && dispatched(req, m, k),
                    }
                },
            },
    {
        match Request::new(input, closed) {
            Parsed::Incomplete => {
                if conn.idle_expired(now) {
                    let t = Response::quick(Status::RequestTimeout, now);
                    assert(Status::RequestTimeout.code_spec() == 408);
                    assert(refusal(t@, 408, now));
                    Action::Refuse(t)
                } else {
                    Action::Wait
                }
            },
            Parsed::Drop => Action::Close,
            Parsed::Reject(s) => {
                let ghost st = s;
                let t = Response::quick(s, now);
                assert(refusal(t@, st.code_spec(), now));
                Action::Refuse(t)
            },
            Parsed::Done(request, used) => {
                let ghost parsed = request;
                assert(parsed.target.full_url_spec() == parsed.target.relative_path@);
                match self.handle_request(conn, request, now) {
                    Step::Close => Action::Close,
                    Step::Reject(s) => {
                        let ghost st = s;
                        let t = Response::quick(s, now);
                        assert(refusal(t@, st.code_spec(), now));
                        Action::Refuse(t)
                    },
                    Step::Dispatch(i, req) => Action::Dispatch(i, req, used),
                }
            },
        }
    }
}

proof fn lemma_exact_scan_bounds(routes: Routes, path: Seq<char>, method: Method, i: int)
    ensures
        exact_scan(routes, path, method, i) matches ExactScan::Invoke(j) ==> 0 <= j < routes.len(),
    decreases routes.len() - i,
{
    if !(i < 0 || i >= routes.len()) {
        lemma_exact_scan_bounds(routes, path, method, i + 1);
    }
}

proof fn lemma_first_directory_bounds(routes: Routes, p: Seq<char>, j: int)
    ensures
        first_directory(routes, p, j) matches Some(x) ==> 0 <= x < routes.len(),
    decreases routes.len() - j,
{
    if !(j < 0 || j >= routes.len()) {
        lemma_first_directory_bounds(routes, p, j + 1);
    }
}

proof fn lemma_prefix_scan_none(routes: Routes, path: Seq<char>, k: int)
    requires
        path.len() == 0 || path[0] != '/',
    ensures
        prefix_scan(routes, path, k) is None,
    decreases path.len() + 1 - k,
{
    if !(k < 1 || k > path.len()) {
        lemma_prefix_scan_none(routes, path, k + 1);
    }
}

} // verus!
