use oak_http_server::cookie::Cookie;
use oak_http_server::fields::Fields;
use oak_http_server::request::{read_bytes, read_line, Parsed, Request};
use oak_http_server::response::Response;
use oak_http_server::server::{Action, Connection, HandlerMethod, Server, Step};
use oak_http_server::status::{Method, Status};

type Handler = Box<dyn Fn(Request, Response) -> String>;

const NOW: u64 = 784111777;

fn parse(input: &str) -> Parsed {
    Request::new(input.as_bytes(), false)
}

fn done(input: &str) -> (Request, usize) {
    match parse(input) {
        Parsed::Done(r, n) => (r, n),
        _ => panic!("request not read whole"),
    }
}

fn rejected(input: &str, closed: bool) -> Status {
    match Request::new(input.as_bytes(), closed) {
        Parsed::Reject(s) => s,
        _ => panic!("request not refused"),
    }
}

/// Runs the requests of `input` through `server` on one connection, as a host would.
fn serve(server: &Server<Handler>, input: &str) -> (String, Connection) {
    let bytes = input.as_bytes();
    let mut conn = Connection::new(NOW);
    let mut out = String::new();
    let mut pos = 0;
    while !conn.close {
        match server.next_action(&mut conn, &bytes[pos..], true, NOW) {
            Action::Wait | Action::Close => break,
            Action::Refuse(text) => {
                out.push_str(&text);
                break;
            }
            Action::Dispatch(i, req, used) => {
                pos += used;
                out.push_str(&(server.handler(i))(req, Response::new(NOW)));
            }
        }
    }
    (out, conn)
}

/// Runs one request through `handle_request`.
fn decide_one(server: &Server<Handler>, input: &str) -> Step {
    let (req, _) = done(input);
    let mut conn = Connection::new(NOW);
    server.handle_request(&mut conn, req, NOW)
}

fn pong() -> Handler {
    Box::new(|_req, res| res.end_with("pong"))
}

#[test]
fn lines_and_bytes() {
    let input = b"ab\ncd\r\nrest";
    let (line, next) = read_line(input, 0).unwrap();
    assert_eq!(line.iter().collect::<String>(), "ab\ncd");
    assert_eq!(next, 7);
    assert!(read_line(input, next).is_none());
    assert_eq!(read_bytes(input, 7, 4).unwrap(), b"rest".to_vec());
    assert!(read_bytes(input, 7, 5).is_none());
}

#[test]
fn simple_request() {
    let (r, n) = done("GET /x?a=1 HTTP/1.1\r\nHost: h\r\nCookie: a=1; b=2\r\n\r\nleft");
    assert_eq!(r.method, Method::GET);
    assert_eq!(r.target.relative_path, "/x");
    assert_eq!(r.target.queries.get("a").unwrap(), "1");
    assert_eq!((r.version.major, r.version.minor), (1, 1));
    assert_eq!(r.headers.get("host").unwrap(), "h");
    assert_eq!(r.cookies.get("a").unwrap(), "1");
    assert_eq!(r.cookies.get("b").unwrap(), "2");
    assert!(r.body.is_empty());
    assert_eq!(n, "GET /x?a=1 HTTP/1.1\r\nHost: h\r\nCookie: a=1; b=2\r\n\r\n".len());
}

#[test]
fn empty_header_block_accepted() {
    let (r, n) = done("GET / HTTP/1.1\r\n\r\n");
    assert_eq!(r.headers.len(), 0);
    assert_eq!(n, 18);
}

#[test]
fn header_with_colons() {
    let (r, _) = done("GET / HTTP/1.1\r\nX-Time: 12:30:00\r\n\r\n");
    assert_eq!(r.headers.get("x-time").unwrap(), "12:30:00");
}

#[test]
fn empty_chunked_body() {
    let (r, n) = done("POST / HTTP/1.1\r\nTransfer-Encoding: chunked\r\n\r\n0\r\n\r\n");
    assert_eq!(r.body.len(), 0);
    assert_eq!(n, "POST / HTTP/1.1\r\nTransfer-Encoding: chunked\r\n\r\n0\r\n\r\n".len());
}

#[test]
fn chunked_request_body() {
    let (r, _) =
        done("POST /u HTTP/1.1\r\nHost: x\r\nTransfer-Encoding: chunked\r\n\r\n5\r\nHello\r\n0\r\n\r\n");
    assert_eq!(r.body, b"Hello".to_vec());
    let (r, _) = done(
        "POST / HTTP/1.1\r\nTransfer-Encoding: Chunked\r\n\r\n3;ext=1\r\nabc\r\nA\r\n0123456789\r\n0\r\nTrailer: t\r\n\r\n",
    );
    assert_eq!(r.body, b"abc0123456789".to_vec());
}

#[test]
fn chunked_errors() {
    assert_eq!(
        rejected("POST / HTTP/1.1\r\nTransfer-Encoding: gzip\r\n\r\n", false),
        Status::BadRequest
    );
    assert_eq!(
        rejected("POST / HTTP/1.1\r\nTransfer-Encoding: chunked\r\n\r\nzz\r\n", false),
        Status::BadRequest
    );
    assert_eq!(
        rejected("POST / HTTP/1.1\r\nTransfer-Encoding: chunked\r\n\r\n5\r\nab", true),
        Status::BadRequest
    );
    assert!(matches!(
        parse("POST / HTTP/1.1\r\nTransfer-Encoding: chunked\r\n\r\n5\r\nab"),
        Parsed::Incomplete
    ));
}

#[test]
fn counted_body() {
    let (r, n) = done("POST / HTTP/1.1\r\nContent-Length: 3\r\n\r\nabcdef");
    assert_eq!(r.body, b"abc".to_vec());
    assert_eq!(n, 41);
    assert!(matches!(parse("POST / HTTP/1.1\r\nContent-Length: 9\r\n\r\nabc"), Parsed::Incomplete));
    assert_eq!(
        rejected("POST / HTTP/1.1\r\nContent-Length: 9\r\n\r\nabc", true),
        Status::InternalServerError
    );
    assert_eq!(
        rejected("POST / HTTP/1.1\r\nContent-Length: x\r\n\r\n", false),
        Status::BadRequest
    );
}

#[test]
fn request_line_errors() {
    assert_eq!(rejected("FOO /x HTTP/1.1\r\n\r\n", false), Status::NotImplemented);
    assert_eq!(rejected("GET /x HTTP/x\r\n\r\n", false), Status::BadRequest);
    assert_eq!(rejected("GET /x\r\n\r\n", false), Status::BadRequest);
    assert_eq!(rejected("GET /x HTTP/1.1 extra\r\n\r\n", false), Status::BadRequest);
    assert!(matches!(parse("GET / HTTP/1.1\r\nbad header\r\n\r\n"), Parsed::Drop));
    assert!(matches!(parse("GET / HTTP/1.1\r\nHost: x\r\n"), Parsed::Incomplete));
    assert!(matches!(Request::new(b"GET / HTTP/1.1\r\nHost: x\r\n", true), Parsed::Drop));
    assert!(matches!(parse(""), Parsed::Incomplete));
    assert!(matches!(Request::new(b"", true), Parsed::Drop));
}

#[test]
fn response_stream() {
    let mut r = Response::new(NOW);
    r.set_header("Content-Type", "text/plain");
    r.send("ab");
    let first = r.take_output();
    assert!(first.starts_with("HTTP/1.1 200 OK\r\n"));
    assert!(first.contains("Transfer-Encoding: chunked\r\n"));
    assert!(first.contains("Date: Sun, 06 Nov 1994 08:49:37 GMT\r\n"));
    assert!(first.contains("Content-Type: text/plain\r\n"));
    assert!(first.ends_with("\r\n\r\n2\r\nab\r\n"));
    r.send("");
    r.send("0123456789abcdef!");
    let rest = r.end();
    assert_eq!(rest, "11\r\n0123456789abcdef!\r\n0\r\n\r\n");
}

#[test]
fn status_after_first_byte_is_ignored() {
    let mut r = Response::new(NOW);
    r.status(Status::Created);
    r.send("x");
    r.status(Status::NotFound);
    let text = r.end();
    assert!(text.starts_with("HTTP/1.1 201 Created\r\n"));
    assert!(!text.contains("404"));
}

#[test]
fn forbidden_headers_dropped() {
    let mut r = Response::new(NOW);
    r.set_header("content-length", "5");
    r.set_header("CONNECTION", "close");
    r.set_header("Set-Cookie", "a=b");
    r.set_header("Host", "h");
    r.set_header("keep-alive", "x");
    r.set_header("X-Ok", "1");
    let mut more = Fields::new();
    more.insert("Date".to_string(), "never".to_string());
    more.insert("X-Two".to_string(), "2".to_string());
    r.set_headers(&more);
    assert_eq!(r.get_headers().len(), 4);
    let text = r.end();
    assert!(!text.to_lowercase().contains("content-length"));
    assert!(!text.to_lowercase().contains("connection"));
    assert!(!text.contains("never"));
    assert!(text.contains("X-Ok: 1\r\n"));
    assert!(text.contains("X-Two: 2\r\n"));
}

#[test]
fn cookie_set_twice_sent_once() {
    let mut r = Response::new(NOW);
    r.set_cookie(Cookie::new("a b", "\"x;y\""));
    r.set_cookie(Cookie::new("other", "1"));
    r.set_cookie(Cookie::new("a b", "second"));
    let text = r.end();
    assert_eq!(text.matches("Set-Cookie: a_b=").count(), 1);
    assert!(text.contains("Set-Cookie: a_b=second\r\n"));
    assert!(text.contains("Set-Cookie: other=1\r\n"));
}

#[test]
fn cookie_sanitized_on_the_wire() {
    let mut r = Response::new(NOW);
    r.set_cookie(Cookie::new("a b", "\"x;y\""));
    assert!(r.end().contains("Set-Cookie: a_b=x_y\r\n"));
}

#[test]
fn quick_response() {
    let text = Response::quick(Status::NotFound, NOW);
    assert!(text.starts_with("HTTP/1.1 404 Not Found\r\n"));
    assert!(text.ends_with("\r\n\r\n0\r\n\r\n"));
}

#[test]
fn ping() {
    let mut server: Server<Handler> = Server::new("localhost", 2300);
    server.on("/ping", pong());
    let (out, conn) = serve(&server, "GET /ping HTTP/1.1\r\nHost: x\r\n\r\n");
    assert!(out.starts_with("HTTP/1.1 200 OK\r\n"));
    assert!(out.contains("Transfer-Encoding: chunked\r\n"));
    assert!(out.ends_with("\r\n\r\n4\r\npong\r\n0\r\n\r\n"));
    assert!(!conn.close);
    assert_eq!(conn.requests_received, 1);
}

#[test]
fn method_filter() {
    let mut server: Server<Handler> = Server::new("localhost", 2300);
    server.on_get("/a", pong());
    let (out, _) = serve(&server, "POST /a HTTP/1.1\r\nHost:x\r\n\r\n");
    assert!(out.starts_with("HTTP/1.1 404 Not Found\r\n"));
    let (out, _) = serve(&server, "GET /a HTTP/1.1\r\nHost:x\r\n\r\n");
    assert!(out.ends_with("4\r\npong\r\n0\r\n\r\n"));
}

#[test]
fn directory_rewrite() {
    let mut server: Server<Handler> = Server::new("localhost", 2300);
    server.on_directory(
        "/www",
        Box::new(|req: Request, res: Response| {
            assert_eq!(req.target.target_path, "/www");
            assert_eq!(req.target.relative_path, "/etc/main.txt");
            res.end_with(&req.target.full_url())
        }),
    );
    let (out, _) = serve(&server, "GET /www/etc/main.txt HTTP/1.1\r\nHost:x\r\n\r\n");
    assert!(out.ends_with("11\r\n/www/etc/main.txt\r\n0\r\n\r\n"));
    let (out, _) = serve(&server, "GET /wwwx/a HTTP/1.1\r\nHost:x\r\n\r\n");
    assert!(out.starts_with("HTTP/1.1 404 Not Found\r\n"));
}

#[test]
fn routing_table() {
    let mut server: Server<Handler> = Server::new("h", 1);
    server.on_directory("/d", pong());
    server.on_post("/d/x", pong());
    server.on_head("/h", pong());
    server.on_put("/p", pong());
    server.on_delete("/p", pong());
    assert_eq!(server.handler_count(), 5);
    let path: Vec<char> = "/d/x".chars().collect();
    assert_eq!(server.route_exec(&path, Method::POST), Some((1, None)));
    assert_eq!(server.route_exec(&path, Method::GET), None);
    let path: Vec<char> = "/d/y/z".chars().collect();
    assert_eq!(server.route_exec(&path, Method::GET), Some((0, Some(2))));
    let path: Vec<char> = "/d".chars().collect();
    assert_eq!(server.route_exec(&path, Method::GET), Some((0, Some(2))));
    let path: Vec<char> = "/p".chars().collect();
    assert_eq!(server.route_exec(&path, Method::DELETE), None);
    assert_eq!(server.route_exec(&path, Method::PUT), Some((3, None)));
    assert_eq!(HandlerMethod::Specific(Method::GET), HandlerMethod::Specific(Method::GET));
}

#[test]
fn chunked_body_reaches_handler() {
    let mut server: Server<Handler> = Server::new("localhost", 2300);
    server.on_post(
        "/up",
        Box::new(|req: Request, res: Response| {
            res.end_with(&String::from_utf8(req.body.clone()).unwrap())
        }),
    );
    let (out, _) = serve(
        &server,
        "POST /up HTTP/1.1\r\nHost: x\r\nTransfer-Encoding: chunked\r\n\r\n5\r\nHello\r\n0\r\n\r\n",
    );
    assert!(out.ends_with("5\r\nHello\r\n0\r\n\r\n"));
}

#[test]
fn version_mismatch() {
    let mut server: Server<Handler> = Server::new("localhost", 2300);
    server.on("/", pong());
    let (out, _) = serve(&server, "GET / HTTP/2.0\r\nHost:x\r\n\r\nGET / HTTP/1.1\r\nHost:x\r\n\r\n");
    assert!(out.starts_with("HTTP/1.1 505 HTTP Version Not Supported\r\n"));
    assert_eq!(out.matches("HTTP/1.1 ").count(), 1);
    let (out, _) = serve(&server, "GET / HTTP/1.9\r\nHost:x\r\n\r\n");
    assert!(out.starts_with("HTTP/1.1 400 Bad Request\r\n"));
    let (out, _) = serve(&server, "GET / HTTP/1.0\r\nHost:x\r\n\r\n");
    assert!(out.starts_with("HTTP/1.1 426 Upgrade Required\r\n"));
    let (out, _) = serve(&server, "GET / HTTP/1.1\r\n\r\n");
    assert!(out.starts_with("HTTP/1.1 400 Bad Request\r\n"));
}

#[test]
fn keep_alive_tightening() {
    let mut server: Server<Handler> = Server::new("localhost", 2300);
    server.on("/", pong());
    let one = "GET / HTTP/1.1\r\nHost: x\r\nKeep-Alive: timeout=30, max=3\r\n\r\n";
    let (out, conn) = serve(&server, one);
    assert_eq!(conn.timeout, 30);
    assert_eq!(conn.max_requests, 3);
    assert_eq!(out.matches("HTTP/1.1 200 OK").count(), 1);
    let four = one.repeat(4);
    let (out, conn) = serve(&server, &four);
    assert_eq!(out.matches("HTTP/1.1 200 OK").count(), 3);
    assert_eq!(out.matches("HTTP/1.1 ").count(), 3);
    assert_eq!(conn.requests_received, 3);
}

#[test]
fn keep_alive_limits() {
    let mut conn = Connection::new(0);
    let mut h = Fields::new();
    h.insert("keep-alive".to_string(), "timeout=90, max=50".to_string());
    assert_eq!(conn.handle_headers(&h), Ok(()));
    assert_eq!(conn.timeout, 60);
    assert_eq!(conn.max_requests, 5);
    let mut bad = Fields::new();
    bad.insert("keep-alive".to_string(), "timeout=abc".to_string());
    assert_eq!(conn.handle_headers(&bad), Err(Status::BadRequest));
    let mut bad = Fields::new();
    bad.insert("keep-alive".to_string(), "timeout".to_string());
    assert_eq!(conn.handle_headers(&bad), Err(Status::BadRequest));
    assert!(!conn.idle_expired(60));
    assert!(conn.idle_expired(61));
}

#[test]
fn connection_close_honoured() {
    let mut server: Server<Handler> = Server::new("localhost", 2300);
    server.on("/", pong());
    let req = "GET / HTTP/1.1\r\nHost: x\r\nConnection: Close\r\n\r\n";
    let (out, conn) = serve(&server, &req.repeat(2));
    assert!(conn.close);
    assert_eq!(out.matches("HTTP/1.1 200 OK").count(), 1);
    assert!(out.ends_with("0\r\n\r\n"));
}

#[test]
fn idle_connection_times_out() {
    let server: Server<Handler> = Server::new("localhost", 2300);
    let mut conn = Connection::new(NOW);
    assert!(matches!(server.next_action(&mut conn, b"GET / HT", false, NOW + 10), Action::Wait));
    match server.next_action(&mut conn, b"GET / HT", false, NOW + 61) {
        Action::Refuse(text) => assert!(text.starts_with("HTTP/1.1 408 Request Timeout\r\n")),
        _ => panic!("no timeout"),
    }
    assert!(matches!(server.next_action(&mut conn, b"", true, NOW), Action::Close));
}

#[test]
fn decisions_without_host_stream() {
    let mut server: Server<Handler> = Server::new("localhost", 2300);
    server.on_directory("/www", pong());
    match decide_one(&server, "GET /www/a HTTP/1.1\r\nHost: x\r\n\r\n") {
        Step::Dispatch(0, req) => {
            assert_eq!(req.target.target_path, "/www");
            assert_eq!(req.target.relative_path, "/a");
        }
        _ => panic!("not dispatched"),
    }
    assert!(matches!(
        decide_one(&server, "GET /other HTTP/1.1\r\nHost: x\r\n\r\n"),
        Step::Reject(Status::NotFound)
    ));
    assert!(matches!(
        decide_one(&server, "GET /www HTTP/1.1\r\nHost: x\r\nKeep-Alive: max=x\r\n\r\n"),
        Step::Reject(Status::BadRequest)
    ));
}
