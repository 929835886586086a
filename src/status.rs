//! Response status codes and request methods.
use vstd::prelude::*;

use crate::text::{decimal, push_decimal, push_str, str_eq, string_of};

verus! {

/// The status of a response: one of the registered HTTP status codes, each with its
/// reason phrase, or any other code with a reason phrase of the caller's choosing.
#[derive(Debug, Clone)]
#[non_exhaustive]
pub enum Status {
    /// `100 Continue`
    Continue,
    /// `101 Switching Protocols`
    SwitchingProtocols,
    /// `102 Processing`
    Processing,
    /// `103 Early Hints`
    EarlyHints,
    /// `200 OK`
    OK,
    /// `201 Created`
    Created,
    /// `202 Accepted`
    Accepted,
    /// `203 Non-Authoritative Information`
    NonAuthoritativeInformation,
    /// `204 No Content`
    NoContent,
    /// `205 Reset Content`
    ResetContent,
    /// `206 Partial Content`
    PartialContent,
    /// `207 Multi-Status`
    MultiStatus,
    /// `208 Already Reported`
    AlreadyReported,
    /// `226 IM Used`
    ImUsed,
    /// `300 Multiple Choices`
    MultipleChoices,
    /// `301 Moved Permanently`
    MovedPermanently,
    /// `302 Found`
    Found,
    /// `303 See Other`
    SeeOther,
    /// `304 Not Modified`
    NotModified,
    /// `305 Use Proxy`
    UseProxy,
    /// `307 Temporary Redirect`
    TemporaryRedirect,
    /// `308 Permanent Redirect`
    PermanentRedirect,
    /// `400 Bad Request`
    BadRequest,
    /// `401 Unauthorized`
    Unauthorized,
    /// `402 Payment Required`
    PaymentRequired,
    /// `403 Forbidden`
    Forbidden,
    /// `404 Not Found`
    NotFound,
    /// `405 Method Not Allowed`
    MethodNotAllowed,
    /// `406 Not Acceptable`
    NotAcceptable,
    /// `407 Proxy Authentication Required`
    ProxyAuthenticationRequired,
    /// `408 Request Timeout`
    RequestTimeout,
    /// `409 Conflict`
    Conflict,
    /// `410 Gone`
    Gone,
    /// `411 Length Required`
    LengthRequired,
    /// `412 Precondition Failed`
    PreconditionFailed,
    /// `413 Content Too Large`
    ContentTooLarge,
    /// `414 URI Too Long`
    UriTooLong,
    /// `415 Unsupported Media Type`
    UnsupportedMediaType,
    /// `416 Range Not Satisfiable`
    RangeNotSatisfiable,
    /// `417 Expectation Failed`
    ExpectationFailed,
    /// `418 I'm a teapot`
    ImATeapot,
    /// `421 Misdirected Request`
    MisdirectedRequest,
    /// `422 Unprocessable Content`
    UnprocessableContent,
    /// `423 Locked`
    Locked,
    /// `424 Failed Dependency`
    FailedDependency,
    /// `425 Too Early`
    TooEarly,
    /// `426 Upgrade Required`
    UpgradeRequired,
    /// `428 Precondition Required`
    PreconditionRequired,
    /// `429 Too Many Requests`
    TooManyRequests,
    /// `431 Request Header Fields Too Large`
    RequestHeaderFieldsTooLarge,
    /// `451 Unavailable For Legal Reasons`
    UnavailableForLegalReasons,
    /// `500 Internal Server Error`
    InternalServerError,
    /// `501 Not Implemented`
    NotImplemented,
    /// `502 Bad Gateway`
    BadGateway,
    /// `503 Service Unavailable`
    ServiceUnavailable,
    /// `504 Gateway Timeout`
    GatewayTimeout,
    /// `505 HTTP Version Not Supported`
    HttpVersionNotSupported,
    /// `506 Variant Also Negotiates`
    VariantAlsoNegotiates,
    /// `507 Insufficient Storage`
    InsufficientStorage,
    /// `508 Loop Detected`
    LoopDetected,
    /// `511 Network Authentication Required`
    NetworkAuthenticationRequired,
    /// A status code not listed above, with its reason phrase (empty unless set with
    /// [`Status::other_text`]).
    Other(usize, String),
}

/// The reason phrase of `code` when it is one of the listed status codes.
pub open spec fn listed_reason(code: usize) -> Option<Seq<char>> {
    if code == 100 {
        Some("Continue"@)
    } else if code == 101 {
        Some("Switching Protocols"@)
    } else if code == 102 {
        Some("Processing"@)
    } else if code == 103 {
        Some("Early Hints"@)
    } else if code == 200 {
        Some("OK"@)
    } else if code == 201 {
        Some("Created"@)
    } else if code == 202 {
        Some("Accepted"@)
    } else if code == 203 {
        Some("Non-Authoritative Information"@)
    } else if code == 204 {
        Some("No Content"@)
    } else if code == 205 {
        Some("Reset Content"@)
    } else if code == 206 {
        Some("Partial Content"@)
    } else if code == 207 {
        Some("Multi-Status"@)
    } else if code == 208 {
        Some("Already Reported"@)
    } else if code == 226 {
        Some("IM Used"@)
    } else if code == 300 {
        Some("Multiple Choices"@)
    } else if code == 301 {
        Some("Moved Permanently"@)
    } else if code == 302 {
        Some("Found"@)
    } else if code == 303 {
        Some("See Other"@)
    } else if code == 304 {
        Some("Not Modified"@)
    } else if code == 305 {
        Some("Use Proxy"@)
    } else if code == 307 {
        Some("Temporary Redirect"@)
    } else if code == 308 {
        Some("Permanent Redirect"@)
    } else if code == 400 {
        Some("Bad Request"@)
    } else if code == 401 {
        Some("Unauthorized"@)
    } else if code == 402 {
        Some("Payment Required"@)
    } else if code == 403 {
        Some("Forbidden"@)
    } else if code == 404 {
        Some("Not Found"@)
    } else if code == 405 {
        Some("Method Not Allowed"@)
    } else if code == 406 {
        Some("Not Acceptable"@)
    } else if code == 407 {
        Some("Proxy Authentication Required"@)
    } else if code == 408 {
        Some("Request Timeout"@)
    } else if code == 409 {
        Some("Conflict"@)
    } else if code == 410 {
        Some("Gone"@)
    } else if code == 411 {
        Some("Length Required"@)
    } else if code == 412 {
        Some("Precondition Failed"@)
    } else if code == 413 {
        Some("Content Too Large"@)
    } else if code == 414 {
        Some("URI Too Long"@)
    } else if code == 415 {
        Some("Unsupported Media Type"@)
    } else if code == 416 {
        Some("Range Not Satisfiable"@)
    } else if code == 417 {
        Some("Expectation Failed"@)
    } else if code == 418 {
        Some("I'm a teapot"@)
    } else if code == 421 {
        Some("Misdirected Request"@)
    } else if code == 422 {
        Some("Unprocessable Content"@)
    } else if code == 423 {
        Some("Locked"@)
    } else if code == 424 {
        Some("Failed Dependency"@)
    } else if code == 425 {
        Some("Too Early"@)
    } else if code == 426 {
        Some("Upgrade Required"@)
    } else if code == 428 {
        Some("Precondition Required"@)
    } else if code == 429 {
        Some("Too Many Requests"@)
    } else if code == 431 {
        Some("Request Header Fields Too Large"@)
    } else if code == 451 {
        Some("Unavailable For Legal Reasons"@)
    } else if code == 500 {
        Some("Internal Server Error"@)
    } else if code == 501 {
        Some("Not Implemented"@)
    } else if code == 502 {
        Some("Bad Gateway"@)
    } else if code == 503 {
        Some("Service Unavailable"@)
    } else if code == 504 {
        Some("Gateway Timeout"@)
    } else if code == 505 {
        Some("HTTP Version Not Supported"@)
    } else if code == 506 {
        Some("Variant Also Negotiates"@)
    } else if code == 507 {
        Some("Insufficient Storage"@)
    } else if code == 508 {
        Some("Loop Detected"@)
    } else if code == 511 {
        Some("Network Authentication Required"@)
    } else {
        None
    }
}

impl Status {
    /// The numeric code of the status.
    pub open spec fn code_spec(&self) -> usize {
        match self {
            Status::Continue => 100,
            Status::SwitchingProtocols => 101,
            Status::Processing => 102,
            Status::EarlyHints => 103,
            Status::OK => 200,
            Status::Created => 201,
            Status::Accepted => 202,
            Status::NonAuthoritativeInformation => 203,
            Status::NoContent => 204,
            Status::ResetContent => 205,
            Status::PartialContent => 206,
            Status::MultiStatus => 207,
            Status::AlreadyReported => 208,
            Status::ImUsed => 226,
            Status::MultipleChoices => 300,
            Status::MovedPermanently => 301,
            Status::Found => 302,
            Status::SeeOther => 303,
            Status::NotModified => 304,
            Status::UseProxy => 305,
            Status::TemporaryRedirect => 307,
            Status::PermanentRedirect => 308,
            Status::BadRequest => 400,
            Status::Unauthorized => 401,
            Status::PaymentRequired => 402,
            Status::Forbidden => 403,
            Status::NotFound => 404,
            Status::MethodNotAllowed => 405,
            Status::NotAcceptable => 406,
            Status::ProxyAuthenticationRequired => 407,
            Status::RequestTimeout => 408,
            Status::Conflict => 409,
            Status::Gone => 410,
            Status::LengthRequired => 411,
            Status::PreconditionFailed => 412,
            Status::ContentTooLarge => 413,
            Status::UriTooLong => 414,
            Status::UnsupportedMediaType => 415,
            Status::RangeNotSatisfiable => 416,
            Status::ExpectationFailed => 417,
            Status::ImATeapot => 418,
            Status::MisdirectedRequest => 421,
            Status::UnprocessableContent => 422,
            Status::Locked => 423,
            Status::FailedDependency => 424,
            Status::TooEarly => 425,
            Status::UpgradeRequired => 426,
            Status::PreconditionRequired => 428,
            Status::TooManyRequests => 429,
            Status::RequestHeaderFieldsTooLarge => 431,
            Status::UnavailableForLegalReasons => 451,
            Status::InternalServerError => 500,
            Status::NotImplemented => 501,
            Status::BadGateway => 502,
            Status::ServiceUnavailable => 503,
            Status::GatewayTimeout => 504,
            Status::HttpVersionNotSupported => 505,
            Status::VariantAlsoNegotiates => 506,
            Status::InsufficientStorage => 507,
            Status::LoopDetected => 508,
            Status::NetworkAuthenticationRequired => 511,
            Status::Other(code, _) => *code,
        }
    }

    /// The reason phrase of the status.
    pub open spec fn reason_spec(&self) -> Seq<char> {
        match self {
            Status::Other(_, text) => text@,
            _ => listed_reason(self.code_spec())->0,
        }
    }

    /// The status line text: the code in decimal, then a space and the reason phrase
    /// when that phrase is not empty.
    pub open spec fn text_spec(&self) -> Seq<char> {
        if self.reason_spec().len() == 0 {
            decimal(self.code_spec() as nat)
        } else {
            decimal(self.code_spec() as nat) + seq![' '] + self.reason_spec()
        }
    }

    /// The numeric code of the status.
    pub fn code(&self) -> (r: usize)
        ensures
            r == self.code_spec(),
    {
        match self {
            Status::Continue => 100,
            Status::SwitchingProtocols => 101,
            Status::Processing => 102,
            Status::EarlyHints => 103,
            Status::OK => 200,
            Status::Created => 201,
            Status::Accepted => 202,
            Status::NonAuthoritativeInformation => 203,
            Status::NoContent => 204,
            Status::ResetContent => 205,
            Status::PartialContent => 206,
            Status::MultiStatus => 207,
            Status::AlreadyReported => 208,
            Status::ImUsed => 226,
            Status::MultipleChoices => 300,
            Status::MovedPermanently => 301,
            Status::Found => 302,
            Status::SeeOther => 303,
            Status::NotModified => 304,
            Status::UseProxy => 305,
            Status::TemporaryRedirect => 307,
            Status::PermanentRedirect => 308,
            Status::BadRequest => 400,
            Status::Unauthorized => 401,
            Status::PaymentRequired => 402,
            Status::Forbidden => 403,
            Status::NotFound => 404,
            Status::MethodNotAllowed => 405,
            Status::NotAcceptable => 406,
            Status::ProxyAuthenticationRequired => 407,
            Status::RequestTimeout => 408,
            Status::Conflict => 409,
            Status::Gone => 410,
            Status::LengthRequired => 411,
            Status::PreconditionFailed => 412,
            Status::ContentTooLarge => 413,
            Status::UriTooLong => 414,
            Status::UnsupportedMediaType => 415,
            Status::RangeNotSatisfiable => 416,
            Status::ExpectationFailed => 417,
            Status::ImATeapot => 418,
            Status::MisdirectedRequest => 421,
            Status::UnprocessableContent => 422,
            Status::Locked => 423,
            Status::FailedDependency => 424,
            Status::TooEarly => 425,
            Status::UpgradeRequired => 426,
            Status::PreconditionRequired => 428,
            Status::TooManyRequests => 429,
            Status::RequestHeaderFieldsTooLarge => 431,
            Status::UnavailableForLegalReasons => 451,
            Status::InternalServerError => 500,
            Status::NotImplemented => 501,
            Status::BadGateway => 502,
            Status::ServiceUnavailable => 503,
            Status::GatewayTimeout => 504,
            Status::HttpVersionNotSupported => 505,
            Status::VariantAlsoNegotiates => 506,
            Status::InsufficientStorage => 507,
            Status::LoopDetected => 508,
            Status::NetworkAuthenticationRequired => 511,
            Status::Other(code, _) => *code,
        }
    }

    /// The status for a numeric code (see [`Status::from_code`]).
    pub fn new(status: usize) -> (r: Status)
        ensures
            r.code_spec() == status,
            r is Other <==> listed_reason(status) is None,
            r.reason_spec() == (match listed_reason(status) {
                Some(t) => t,
                None => Seq::<char>::empty(),
            }),
    {
        Status::from_code(status)
    }

    /// The status for a numeric code: the listed variant for a listed code, else
    /// `Other(code)` with an empty reason phrase.
    pub fn from_code(code: usize) -> (r: Status)
        ensures
            r.code_spec() == code,
            r is Other <==> listed_reason(code) is None,
            r.reason_spec() == (match listed_reason(code) {
                Some(t) => t,
                None => Seq::<char>::empty(),
            }),
    {
        match code {
            100 => Status::Continue,
            101 => Status::SwitchingProtocols,
            102 => Status::Processing,
            103 => Status::EarlyHints,
            200 => Status::OK,
            201 => Status::Created,
            202 => Status::Accepted,
            203 => Status::NonAuthoritativeInformation,
            204 => Status::NoContent,
            205 => Status::ResetContent,
            206 => Status::PartialContent,
            207 => Status::MultiStatus,
            208 => Status::AlreadyReported,
            226 => Status::ImUsed,
            300 => Status::MultipleChoices,
            301 => Status::MovedPermanently,
            302 => Status::Found,
            303 => Status::SeeOther,
            304 => Status::NotModified,
            305 => Status::UseProxy,
            307 => Status::TemporaryRedirect,
            308 => Status::PermanentRedirect,
            400 => Status::BadRequest,
            401 => Status::Unauthorized,
            402 => Status::PaymentRequired,
            403 => Status::Forbidden,
            404 => Status::NotFound,
            405 => Status::MethodNotAllowed,
            406 => Status::NotAcceptable,
            407 => Status::ProxyAuthenticationRequired,
            408 => Status::RequestTimeout,
            409 => Status::Conflict,
            410 => Status::Gone,
            411 => Status::LengthRequired,
            412 => Status::PreconditionFailed,
            413 => Status::ContentTooLarge,
            414 => Status::UriTooLong,
            415 => Status::UnsupportedMediaType,
            416 => Status::RangeNotSatisfiable,
            417 => Status::ExpectationFailed,
            418 => Status::ImATeapot,
            421 => Status::MisdirectedRequest,
            422 => Status::UnprocessableContent,
            423 => Status::Locked,
            424 => Status::FailedDependency,
            425 => Status::TooEarly,
            426 => Status::UpgradeRequired,
            428 => Status::PreconditionRequired,
            429 => Status::TooManyRequests,
            431 => Status::RequestHeaderFieldsTooLarge,
            451 => Status::UnavailableForLegalReasons,
            500 => Status::InternalServerError,
            501 => Status::NotImplemented,
            502 => Status::BadGateway,
            503 => Status::ServiceUnavailable,
            504 => Status::GatewayTimeout,
            505 => Status::HttpVersionNotSupported,
            506 => Status::VariantAlsoNegotiates,
            507 => Status::InsufficientStorage,
            508 => Status::LoopDetected,
            511 => Status::NetworkAuthenticationRequired,
            _ => Status::Other(code, String::new()),
        }
    }

    /// Replaces the reason phrase of an `Other` status; any other status is returned
    /// unchanged.
    pub fn other_text(self, text: &str) -> (r: Status)
        ensures
            r.code_spec() == self.code_spec(),
            r is Other <==> self is Other,
            self is Other ==> r.reason_spec() == text@,
            !(self is Other) ==> r == self,
    {
        match self {
            Status::Other(code, _) => Status::Other(code, String::from_str(text)),
            _ => self,
        }
    }

    /// The reason phrase of the status.
    pub fn get_status_text(&self) -> (r: String)
        ensures
            r@ == self.reason_spec(),
    {
        match self {
            Status::Continue => String::from_str("Continue"),
            Status::SwitchingProtocols => String::from_str("Switching Protocols"),
            Status::Processing => String::from_str("Processing"),
            Status::EarlyHints => String::from_str("Early Hints"),
            Status::OK => String::from_str("OK"),
            Status::Created => String::from_str("Created"),
            Status::Accepted => String::from_str("Accepted"),
            Status::NonAuthoritativeInformation => String::from_str("Non-Authoritative Information"),
            Status::NoContent => String::from_str("No Content"),
            Status::ResetContent => String::from_str("Reset Content"),
            Status::PartialContent => String::from_str("Partial Content"),
            Status::MultiStatus => String::from_str("Multi-Status"),
            Status::AlreadyReported => String::from_str("Already Reported"),
            Status::ImUsed => String::from_str("IM Used"),
            Status::MultipleChoices => String::from_str("Multiple Choices"),
            Status::MovedPermanently => String::from_str("Moved Permanently"),
            Status::Found => String::from_str("Found"),
            Status::SeeOther => String::from_str("See Other"),
            Status::NotModified => String::from_str("Not Modified"),
            Status::UseProxy => String::from_str("Use Proxy"),
            Status::TemporaryRedirect => String::from_str("Temporary Redirect"),
            Status::PermanentRedirect => String::from_str("Permanent Redirect"),
            Status::BadRequest => String::from_str("Bad Request"),
            Status::Unauthorized => String::from_str("Unauthorized"),
            Status::PaymentRequired => String::from_str("Payment Required"),
            Status::Forbidden => String::from_str("Forbidden"),
            Status::NotFound => String::from_str("Not Found"),
            Status::MethodNotAllowed => String::from_str("Method Not Allowed"),
            Status::NotAcceptable => String::from_str("Not Acceptable"),
            Status::ProxyAuthenticationRequired => String::from_str("Proxy Authentication Required"),
            Status::RequestTimeout => String::from_str("Request Timeout"),
            Status::Conflict => String::from_str("Conflict"),
            Status::Gone => String::from_str("Gone"),
            Status::LengthRequired => String::from_str("Length Required"),
            Status::PreconditionFailed => String::from_str("Precondition Failed"),
            Status::ContentTooLarge => String::from_str("Content Too Large"),
            Status::UriTooLong => String::from_str("URI Too Long"),
            Status::UnsupportedMediaType => String::from_str("Unsupported Media Type"),
            Status::RangeNotSatisfiable => String::from_str("Range Not Satisfiable"),
            Status::ExpectationFailed => String::from_str("Expectation Failed"),
            Status::ImATeapot => String::from_str("I'm a teapot"),
            Status::MisdirectedRequest => String::from_str("Misdirected Request"),
            Status::UnprocessableContent => String::from_str("Unprocessable Content"),
            Status::Locked => String::from_str("Locked"),
            Status::FailedDependency => String::from_str("Failed Dependency"),
            Status::TooEarly => String::from_str("Too Early"),
            Status::UpgradeRequired => String::from_str("Upgrade Required"),
            Status::PreconditionRequired => String::from_str("Precondition Required"),
            Status::TooManyRequests => String::from_str("Too Many Requests"),
            Status::RequestHeaderFieldsTooLarge => String::from_str("Request Header Fields Too Large"),
            Status::UnavailableForLegalReasons => String::from_str("Unavailable For Legal Reasons"),
            Status::InternalServerError => String::from_str("Internal Server Error"),
            Status::NotImplemented => String::from_str("Not Implemented"),
            Status::BadGateway => String::from_str("Bad Gateway"),
            Status::ServiceUnavailable => String::from_str("Service Unavailable"),
            Status::GatewayTimeout => String::from_str("Gateway Timeout"),
            Status::HttpVersionNotSupported => String::from_str("HTTP Version Not Supported"),
            Status::VariantAlsoNegotiates => String::from_str("Variant Also Negotiates"),
            Status::InsufficientStorage => String::from_str("Insufficient Storage"),
            Status::LoopDetected => String::from_str("Loop Detected"),
            Status::NetworkAuthenticationRequired => String::from_str("Network Authentication Required"),
            Status::Other(_, text) => text.clone(),
        }
    }

    /// The text of the status line after the version: `<code> <reason>`, or the code
    /// alone when the reason phrase is empty.
    pub fn to_string(&self) -> (r: String)
        ensures
            r@ == self.text_spec(),
    {
        let mut out: Vec<char> = Vec::new();
        push_decimal(&mut out, self.code() as u64);
        let reason = self.get_status_text();
        if !reason.as_str().is_empty() {
            out.push(' ');
            push_str(&mut out, reason.as_str());
        }
        string_of(out.as_slice())
    }
}

/// Relies on the code, the kind of status and the reason phrase only.
impl PartialEq for Status {
    fn eq(&self, other: &Status) -> (r: bool) {
        let a = self.get_status_text();
        let b = other.get_status_text();
        self.code() == other.code() && self.is_other() == other.is_other() && a == b
    }
}

impl vstd::std_specs::cmp::PartialEqSpecImpl for Status {
    open spec fn obeys_eq_spec() -> bool {
        true
    }

    open spec fn eq_spec(&self, other: &Status) -> bool {
        &&& self.code_spec() == other.code_spec()
        &&& (self is Other) == (other is Other)
        &&& self.reason_spec() == other.reason_spec()
    }
}

impl Status {
    /// Whether this is an `Other` status.
    pub fn is_other(&self) -> (r: bool)
        ensures
            r == self is Other,
    {
        match self {
            Status::Other(_, _) => true,
            _ => false,
        }
    }
}

impl From<usize> for Status {
    fn from(value: usize) -> (r: Status) {
        Status::from_code(value)
    }
}

impl vstd::std_specs::convert::FromSpecImpl<usize> for Status {
    open spec fn obeys_from_spec() -> bool {
        false
    }

    open spec fn from_spec(v: usize) -> Status {
        arbitrary()
    }
}

/// A method of a request.
#[derive(PartialEq, Eq, Structural, Clone, Copy, Debug)]
#[non_exhaustive]
pub enum Method {
    /// `GET`: asks for a representation of the resource.
    GET,
    /// `HEAD`: like `GET`, without the response body.
    HEAD,
    /// `POST`: submits an entity to the resource.
    POST,
    /// `PUT`: replaces the resource with the request payload.
    PUT,
    /// `DELETE`: deletes the resource.
    DELETE,
}

/// The name of a method on the wire.
pub open spec fn method_name(m: Method) -> Seq<char> {
    match m {
        Method::GET => "GET"@,
        Method::HEAD => "HEAD"@,
        Method::POST => "POST"@,
        Method::PUT => "PUT"@,
        Method::DELETE => "DELETE"@,
    }
}

/// The method whose name is exactly `s`, if any.
pub open spec fn parse_method(s: Seq<char>) -> Option<Method> {
    if s == "GET"@ {
        Some(Method::GET)
    } else if s == "HEAD"@ {
        Some(Method::HEAD)
    } else if s == "POST"@ {
        Some(Method::POST)
    } else if s == "PUT"@ {
        Some(Method::PUT)
    } else if s == "DELETE"@ {
        Some(Method::DELETE)
    } else {
        None
    }
}

impl Method {
    /// The method named `method`, matched exactly (upper case), or `None`.
    pub fn new(method: &str) -> (r: Option<Method>)
        ensures
            r == parse_method(method@),
    {
        if str_eq(method, "GET") {
            Some(Method::GET)
        } else if str_eq(method, "HEAD") {
            Some(Method::HEAD)
        } else if str_eq(method, "POST") {
            Some(Method::POST)
        } else if str_eq(method, "PUT") {
            Some(Method::PUT)
        } else if str_eq(method, "DELETE") {
            Some(Method::DELETE)
        } else {
            None
        }
    }

    /// The name of the method.
    pub fn to_string(&self) -> (r: String)
        ensures
            r@ == method_name(*self),
    {
        match self {
            Method::GET => String::from_str("GET"),
            Method::HEAD => String::from_str("HEAD"),
            Method::POST => String::from_str("POST"),
            Method::PUT => String::from_str("PUT"),
            Method::DELETE => String::from_str("DELETE"),
        }
    }
}

} // verus!
