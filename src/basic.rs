//! A smaller vocabulary of requests: two methods, a version and a single header line.
use vstd::prelude::*;

use crate::text::{chars_of, find_chars, split_once, str_eq, string_of};
use crate::version::{parse_version, Version};

verus! {

/// A method of the smaller vocabulary.
#[derive(PartialEq, Eq, Structural, Clone, Copy, Debug)]
pub enum HttpMethod {
    /// `GET`.
    GET,
    /// `HEAD`.
    HEAD,
}

impl HttpMethod {
    /// The method named exactly `method`, or `None`.
    pub fn new(method: &str) -> (r: Option<HttpMethod>)
        ensures
            r == (if method@ == "GET"@ {
                Some(HttpMethod::GET)
            } else if method@ == "HEAD"@ {
                Some(HttpMethod::HEAD)
            } else {
                None
            }),
    {
        if str_eq(method, "GET") {
            Some(HttpMethod::GET)
        } else if str_eq(method, "HEAD") {
            Some(HttpMethod::HEAD)
        } else {
            None
        }
    }

    /// The name of the method.
    pub fn to_string(&self) -> (r: String)
        ensures
            r@ == (match self {
                HttpMethod::GET => "GET"@,
                HttpMethod::HEAD => "HEAD"@,
            }),
    {
        match self {
            HttpMethod::GET => String::from_str("GET"),
            HttpMethod::HEAD => String::from_str("HEAD"),
        }
    }
}

/// A protocol version of the smaller vocabulary.
#[derive(PartialEq, Eq, Structural, Clone, Copy, Debug)]
pub struct HttpVersion {
    /// The major revision.
    pub major: usize,
    /// The minor revision.
    pub minor: usize,
}

impl HttpVersion {
    /// Parses `HTTP/<major>.<minor>` as [`Version::new`] does.
    pub fn new(version: &str) -> (r: Option<HttpVersion>)
        ensures
            r matches Some(v) ==> parse_version(version@) == Some(
                Version { major: v.major, minor: v.minor },
            ),
            r is None ==> parse_version(version@) is None,
    {
        match Version::new(version) {
            Some(v) => Some(HttpVersion { major: v.major, minor: v.minor }),
            None => None,
        }
    }

    /// The text of the version, `HTTP/<major>.<minor>`.
    pub fn to_string(&self) -> (r: String)
        ensures
            r@ == crate::version::render_version(Version { major: self.major, minor: self.minor }),
    {
        Version { major: self.major, minor: self.minor }.to_string()
    }
}

/// A single header, as `name: value`.
#[derive(Clone, Debug)]
pub struct HttpHeader {
    /// The name.
    pub name: String,
    /// The value.
    pub value: String,
}

impl HttpHeader {
    /// Splits `header` at its first `": "`; `None` when it has none.
    pub fn new(header: &str) -> (r: Option<HttpHeader>)
        ensures
            r matches Some(h) ==> split_once(header@, seq![':', ' ']) == Some((h.name@, h.value@)),
            r is None ==> split_once(header@, seq![':', ' ']) is None,
    {
        let cs = chars_of(header);
        let sep = [':', ' '];
        assert(sep@ == seq![':', ' ']);
        match find_chars(cs.as_slice(), &sep, 0) {
            Some(k) => {
                let (name, value) = cs.as_slice().split_at(k);
                let value = value.split_at(2).1;
                assert(value@ == cs@.skip(k + 2));
                Some(HttpHeader { name: string_of(name), value: string_of(value) })
            },
            None => None,
        }
    }

    /// The header as text, `name: value`.
    pub fn to_string(&self) -> (r: String)
        ensures
            r@ == self.name@ + seq![':', ' '] + self.value@,
    {
        let mut out = chars_of(self.name.as_str());
        out.push(':');
        out.push(' ');
        crate::text::push_str(&mut out, self.value.as_str());
        string_of(out.as_slice())
    }
}

} // verus!
