//! A small HTTP/1.1 server library: request parsing, routing, and a streaming
//! response writer, with the byte stream and the clock left to the caller.
use vstd::prelude::*;

pub mod basic;
pub mod cookie;
pub mod date;
pub mod fields;
pub mod headers;
pub mod request;
pub mod response;
pub mod server;
pub mod status;
pub mod target;
pub mod text;
pub mod version;

pub use basic::{HttpHeader, HttpMethod, HttpVersion};
pub use cookie::{Cookie, SameSite};
pub use date::format_time;
pub use fields::Fields;
pub use headers::{parse_header_line, parse_headers, Cookies, Headers};
pub use request::{read_bytes, read_line, Parsed, Request};
pub use response::Response;
pub use server::{Action, Connection, HandlerMethod, Server, Step};
pub use status::{Method, Status};
pub use target::Target;
pub use version::Version;

verus! {

} // verus!
