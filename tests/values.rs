use oak_http_server::basic::{HttpHeader, HttpMethod, HttpVersion};
use oak_http_server::cookie::{Cookie, SameSite};
use oak_http_server::fields::Fields;
use oak_http_server::headers::{parse_header_line, parse_headers};
use oak_http_server::status::{Method, Status};
use oak_http_server::target::Target;
use oak_http_server::version::Version;

#[test]
fn status_from_code_keeps_code() {
    for code in [100usize, 200, 226, 308, 404, 418, 451, 505, 511, 299, 600, 0, 999] {
        assert_eq!(Status::from(code).code(), code);
        assert_eq!(Status::new(code).code(), code);
    }
}

#[test]
fn status_listed_and_other() {
    assert_eq!(Status::from(200usize), Status::OK);
    assert_eq!(Status::from(404usize), Status::NotFound);
    assert_eq!(Status::from(505usize), Status::HttpVersionNotSupported);
    let other = Status::from(299usize);
    assert!(other.is_other());
    assert_eq!(other.get_status_text(), "");
    assert_eq!(other.to_string(), "299");
    let named = other.other_text("Custom Thing");
    assert_eq!(named.to_string(), "299 Custom Thing");
    assert_eq!(Status::OK.other_text("x"), Status::OK);
}

#[test]
fn status_text() {
    assert_eq!(Status::OK.to_string(), "200 OK");
    assert_eq!(Status::NotFound.to_string(), "404 Not Found");
    assert_eq!(Status::ImATeapot.get_status_text(), "I'm a teapot");
    assert_eq!(
        Status::HttpVersionNotSupported.to_string(),
        "505 HTTP Version Not Supported"
    );
    assert_eq!(Status::RequestTimeout.code(), 408);
}

#[test]
fn method_parse() {
    assert_eq!(Method::new("GET"), Some(Method::GET));
    assert_eq!(Method::new("DELETE"), Some(Method::DELETE));
    assert_eq!(Method::new("get"), None);
    assert_eq!(Method::new("FOO"), None);
    assert_eq!(Method::PUT.to_string(), "PUT");
}

#[test]
fn version_parse_and_render() {
    assert_eq!(Version::new("HTTP/1.1"), Some(Version { major: 1, minor: 1 }));
    assert_eq!(Version::new("HTTP/2.0"), Some(Version { major: 2, minor: 0 }));
    assert_eq!(Version::new("HTTP/1.1").unwrap().to_string(), "HTTP/1.1");
    assert_eq!(Version::new("HTTP/10.23").unwrap().to_string(), "HTTP/10.23");
    assert_eq!(Version::new("HTTP/1"), None);
    assert_eq!(Version::new("HTTP/1.1.1"), None);
    assert_eq!(Version::new("HTTP/a.1"), None);
    assert_eq!(Version::new("HTTP/.1"), None);
    assert_eq!(Version::new("http/1.1"), None);
    assert_eq!(Version::new("HTTP/+1.1"), None);
    assert_eq!(Version::new("HTTP/99999999999999999999999.1"), None);
}

#[test]
fn version_round_trip_on_inputs() {
    for text in ["HTTP/1.1", "HTTP/0.9", "HTTP/2.0", "HTTP/123.456"] {
        assert_eq!(Version::new(text).unwrap().to_string(), text);
    }
}

#[test]
fn simple_vocabulary() {
    assert_eq!(HttpMethod::new("GET"), Some(HttpMethod::GET));
    assert_eq!(HttpMethod::new("POST"), None);
    assert_eq!(HttpMethod::HEAD.to_string(), "HEAD");
    let v = HttpVersion::new("HTTP/1.0").unwrap();
    assert_eq!((v.major, v.minor), (1, 0));
    assert_eq!(v.to_string(), "HTTP/1.0");
    let h = HttpHeader::new("Host: a: b").unwrap();
    assert_eq!(h.name, "Host");
    assert_eq!(h.value, "a: b");
    assert_eq!(h.to_string(), "Host: a: b");
    assert!(HttpHeader::new("Host:x").is_none());
}

#[test]
fn target_decode_and_queries() {
    let t = Target::new("/a%20b?x=1&y=2&z&x=3");
    assert_eq!(t.target_path, "");
    assert_eq!(t.relative_path, "/a b");
    assert_eq!(t.full_url(), "/a b");
    assert_eq!(t.queries.len(), 2);
    assert_eq!(t.queries.get("x").unwrap(), "3");
    assert_eq!(t.queries.get("y").unwrap(), "2");
    assert!(t.queries.get("z").is_none());
}

#[test]
fn percent_escape_with_one_digit_left_literal() {
    assert_eq!(Target::new("/a%4").relative_path, "/a%4");
    assert_eq!(Target::new("/a%").relative_path, "/a%");
    assert_eq!(Target::new("/%zz").relative_path, "/%zz");
    assert_eq!(Target::new("/%41%62").relative_path, "/Ab");
    assert_eq!(Target::new("/%e9").relative_path, "/\u{e9}");
}

#[test]
fn target_render_round_trip() {
    let t = Target::new("/path/x?b=2&a=1");
    let text = t.to_string();
    assert_eq!(text, "/path/x?b=2&a=1");
    let again = Target::new(&text);
    assert_eq!(again.relative_path, t.full_url());
    assert_eq!(again.queries.len(), 2);
    assert_eq!(again.queries.entry(0), t.queries.entry(0));
    assert_eq!(again.queries.entry(1), t.queries.entry(1));
    assert_eq!(Target::new("/plain").to_string(), "/plain");
}

#[test]
fn header_line_splits_on_first_colon() {
    let mut h = Fields::new();
    assert_eq!(parse_header_line(&mut h, "X-Thing: a:b:c "), Some(()));
    assert_eq!(h.get("x-thing").unwrap(), "a:b:c");
    assert_eq!(parse_header_line(&mut h, "no colon here"), None);
    assert_eq!(h.len(), 1);
    assert_eq!(parse_header_line(&mut h, "Host:   example.org\t"), Some(()));
    assert_eq!(h.get("host").unwrap(), "example.org");
    assert!(h.contains_key("host"));
    assert!(!h.contains_key("Host"));
}

#[test]
fn header_block() {
    let h = parse_headers("A: 1\r\nB:2\r\nbad\r\nA: 3");
    assert_eq!(h.len(), 2);
    assert_eq!(h.get("A").unwrap(), "3");
    assert_eq!(h.get("B").unwrap(), "2");
    assert_eq!(h.entry(0).0, "A");
}

#[test]
fn fields_insert_keeps_order() {
    let mut f = Fields::new();
    f.insert("b".to_string(), "1".to_string());
    f.insert("a".to_string(), "2".to_string());
    f.insert("b".to_string(), "3".to_string());
    assert_eq!(f.len(), 2);
    assert_eq!(f.entry(0), (&"b".to_string(), &"3".to_string()));
    assert_eq!(f.entry(1), (&"a".to_string(), &"2".to_string()));
}

#[test]
fn cookie_sanitize() {
    let c = Cookie::new("a b", "\"x;y\"");
    assert_eq!(c.name, "a_b");
    assert_eq!(c.value, "x_y");
    assert!(c.to_string(0).starts_with("a_b=x_y"));
    assert_eq!(c.to_string(0), "a_b=x_y");
    let d = Cookie::new("n(a)m=e", "v(a)l,u e");
    assert_eq!(d.name, "n_a_m_e");
    assert_eq!(d.value, "v(a)l_u_e");
    assert_eq!(Cookie::new("\"q\"", "\"").value, "_");
    assert_eq!(Cookie::new("\"q\"", "").name, "_q_");
}

#[test]
fn cookie_attributes() {
    let mut c = Cookie::new("id", "7");
    c.set_http_only(true).set_path("/some/path");
    assert!(c == Cookie::new("id", "other"));
    assert!(c.http_only);
    assert_eq!(c.path.as_deref(), Some("/some/path"));
    assert_eq!(c.to_string(0), "id=7; HttpOnly; Path=/some/path");
    c.set_same_site(SameSite::NoRestriction);
    assert_eq!(
        c.to_string(0),
        "id=7; HttpOnly; Path=/some/path; Same-Site=None; Secure"
    );
    let mut d = Cookie::new("k", "v");
    d.set_domain("example.org".to_string()).set_secure(true).set_same_site(SameSite::Lax);
    assert_eq!(d.to_string(0), "k=v; Domain=example.org; Same-Site=Lax; Secure");
}

#[test]
fn cookie_expiry() {
    let mut c = Cookie::new("s", "1");
    c.set_expires(784111777);
    assert_eq!(
        c.to_string(784111700),
        "s=1; Expires=Sun, 06 Nov 1994 08:49:37 GMT; Max-Age=77"
    );
    assert_eq!(
        c.to_string(784111800),
        "s=1; Expires=Sun, 06 Nov 1994 08:49:37 GMT; Max-Age=0"
    );
}

#[test]
fn date_format() {
    assert_eq!(
        oak_http_server::format_time(784111777).unwrap(),
        "Sun, 06 Nov 1994 08:49:37 GMT"
    );
    assert_eq!(
        oak_http_server::format_time(0).unwrap(),
        "Thu, 01 Jan 1970 00:00:00 GMT"
    );
    assert!(oak_http_server::format_time(i64::MAX).is_none());
}
