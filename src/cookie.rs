//! Response cookies: sanitising of names and values, and the `Set-Cookie` text.
use vstd::prelude::*;

use crate::date::{format_time, imf_fixdate};
use crate::text::{chars_of, decimal, push_decimal, push_str, string_of};

verus! {

/// Whether a cookie is sent with cross-site requests.
#[derive(PartialEq, Eq, Structural, Clone, Copy, Debug)]
pub enum SameSite {
    /// Only with same-site requests.
    Strict,
    /// Not with cross-site requests, but when navigating to the site from elsewhere.
    Lax,
    /// With cross-site and same-site requests; the cookie is then always `Secure`.
    NoRestriction,
}

/// The name of a `SameSite` setting.
pub open spec fn same_site_name(s: SameSite) -> Seq<char> {
    match s {
        SameSite::Strict => "Strict"@,
        SameSite::Lax => "Lax"@,
        SameSite::NoRestriction => "None"@,
    }
}

impl SameSite {
    /// The name of the setting.
    pub fn to_string(&self) -> (r: String)
        ensures
            r@ == same_site_name(*self),
    {
        match self {
            SameSite::Strict => String::from_str("Strict"),
            SameSite::Lax => String::from_str("Lax"),
            SameSite::NoRestriction => String::from_str("None"),
        }
    }
}

/// Characters that may stand in neither a cookie name nor a cookie value.
pub open spec fn is_value_separator(c: char) -> bool {
    c == ' ' || c == '\t' || c == '"' || c == ',' || c == ';' || c == '/'
}

/// Characters that may not stand in a cookie name.
pub open spec fn is_name_separator(c: char) -> bool {
    is_value_separator(c) || c == '(' || c == ')' || c == '<' || c == '>' || c == '@' || c
        == '\\' || c == '[' || c == ']' || c == '?' || c == '=' || c == '{' || c == '}'
}

/// `s` with one pair of surrounding double quotes taken off, if it has them.
pub open spec fn strip_quotes(s: Seq<char>) -> Seq<char> {
    if s.len() >= 2 && s[0] == '"' && s.last() == '"' {
        s.subrange(1, s.len() - 1)
    } else {
        s
    }
}

/// A cookie name with each separator replaced by `_`.
pub open spec fn sanitize_name(s: Seq<char>) -> Seq<char> {
    s.map_values(|c: char| if is_name_separator(c) { '_' } else { c })
}

/// A cookie value without surrounding quotes and with each of `SP HT " , ; /`
/// replaced by `_`.
pub open spec fn sanitize_value(s: Seq<char>) -> Seq<char> {
    strip_quotes(s).map_values(|c: char| if is_value_separator(c) { '_' } else { c })
}

/// A cookie to set on the client.
#[derive(Clone, Debug)]
pub struct Cookie {
    /// The name of the cookie.
    pub name: String,
    /// The value of the cookie.
    pub value: String,
    /// The host to which the cookie is sent, with its subdomains.
    pub domain: Option<String>,
    /// When the cookie expires, in seconds after the Unix epoch; `None` for a session
    /// cookie.
    pub expires: Option<u64>,
    /// Whether scripts are kept from reading the cookie.
    pub http_only: bool,
    /// The path that a request URL must hold for the cookie to be sent.
    pub path: Option<String>,
    /// See [`SameSite`].
    pub same_site: Option<SameSite>,
    /// Whether the cookie is sent over `https:` only.
    pub secure: bool,
}

/// Seconds from `now` until `expires`, or 0 once that moment has passed.
pub open spec fn max_age(expires: u64, now: u64) -> nat {
    if expires > now {
        (expires - now) as nat
    } else {
        0
    }
}

/// The `Expires` and `Max-Age` attributes for an expiry date.
pub open spec fn expiry_attributes(expires: u64, now: u64) -> Seq<char> {
    (if expires <= i64::MAX {
        match imf_fixdate(expires as int) {
            Some(t) => "; Expires="@ + t,
            None => Seq::empty(),
        }
    } else {
        Seq::empty()
    }) + "; Max-Age="@ + decimal(max_age(expires, now))
}

/// The `Domain` attribute of `c`, if set.
pub open spec fn domain_attr(c: Cookie) -> Seq<char> {
    match c.domain {
        Some(d) => "; Domain="@ + d@,
        None => Seq::empty(),
    }
}

/// The `Expires` and `Max-Age` attributes of `c` at time `now`, if it expires.
pub open spec fn expires_attr(c: Cookie, now: u64) -> Seq<char> {
    match c.expires {
        Some(e) => expiry_attributes(e, now),
        None => Seq::empty(),
    }
}

/// The `HttpOnly` attribute of `c`, if set.
pub open spec fn http_only_attr(c: Cookie) -> Seq<char> {
    if c.http_only {
        "; HttpOnly"@
    } else {
        Seq::empty()
    }
}

/// The `Path` attribute of `c`, if set.
pub open spec fn path_attr(c: Cookie) -> Seq<char> {
    match c.path {
        Some(p) => "; Path="@ + p@,
        None => Seq::empty(),
    }
}

/// The `Same-Site` attribute of `c`, if set.
pub open spec fn same_site_attr(c: Cookie) -> Seq<char> {
    match c.same_site {
        Some(s) => "; Same-Site="@ + same_site_name(s),
        None => Seq::empty(),
    }
}

/// The `Secure` attribute of `c`: set, or implied by `Same-Site=None`.
pub open spec fn secure_attr(c: Cookie) -> Seq<char> {
    if c.secure || c.same_site == Some(SameSite::NoRestriction) {
        "; Secure"@
    } else {
        Seq::empty()
    }
}

/// The text of a `Set-Cookie` header value for `c` at time `now`: `name=value`, then
/// `Domain`, `Expires` with `Max-Age`, `HttpOnly`, `Path`, `Same-Site` and `Secure`
/// where they apply (`Secure` also when `Same-Site` is `None`).
pub open spec fn cookie_text(c: Cookie, now: u64) -> Seq<char> {
    c.name@ + seq!['='] + c.value@ + domain_attr(c) + expires_attr(c, now) + http_only_attr(c)
        + path_attr(c) + same_site_attr(c) + secure_attr(c)
}

fn is_value_separator_exec(c: char) -> (r: bool)
    ensures
        r == is_value_separator(c),
{
    c == ' ' || c == '\t' || c == '"' || c == ',' || c == ';' || c == '/'
}

fn is_name_separator_exec(c: char) -> (r: bool)
    ensures
        r == is_name_separator(c),
{
    is_value_separator_exec(c) || c == '(' || c == ')' || c == '<' || c == '>' || c == '@' || c
        == '\\' || c == '[' || c == ']' || c == '?' || c == '=' || c == '{' || c == '}'
}

impl Cookie {
    /// A cookie with a sanitised name and value and no attributes.
    pub fn new(name: &str, value: &str) -> (r: Cookie)
        ensures
            r.name@ == sanitize_name(name@),
            r.value@ == sanitize_value(value@),
            r.domain is None,
            r.expires is None,
            !r.http_only,
            r.path is None,
            r.same_site is None,
            !r.secure,
    {
        Cookie {
            name: Cookie::replace_with_whitespace(name, false),
            value: Cookie::replace_with_whitespace(value, true),
            domain: None,
            expires: None,
            http_only: false,
            path: None,
            same_site: None,
            secure: false,
        }
    }

    /// Sanitises a cookie value (`is_value`) or name.
    pub fn replace_with_whitespace(s: &str, is_value: bool) -> (r: String)
        ensures
            is_value ==> r@ == sanitize_value(s@),
            !is_value ==> r@ == sanitize_name(s@),
    {
        let mut cs = chars_of(s);
        let n = cs.len();
        if is_value && n >= 2 && cs[0] == '"' && cs[n - 1] == '"' {
            let inner = vstd::slice::slice_to_vec(vstd::slice::slice_subrange(cs.as_slice(), 1, n - 1));
            cs = inner;
        }
        let ghost src = cs@;
        assert(is_value ==> src == strip_quotes(s@));
        assert(!is_value ==> src == s@);
        let mut out: Vec<char> = Vec::new();
        let mut i: usize = 0;
        while i < cs.len()
            invariant
                cs@ == src,
                i <= src.len(),
                out@.len() == i,
                forall|j: int|
                    0 <= j < i ==> #[trigger] out@[j] == (if is_value {
                        if is_value_separator(src[j]) {
                            '_'
                        } else {
                            src[j]
                        }
                    } else {
                        if is_name_separator(src[j]) {
                            '_'
                        } else {
                            src[j]
                        }
                    }),
            decreases src.len() - i,
        {
            let c = cs[i];
            let bad = if is_value {
                is_value_separator_exec(c)
            } else {
                is_name_separator_exec(c)
            };
            if bad {
                out.push('_');
            } else {
                out.push(c);
            }
            i = i + 1;
        }
        assert(is_value ==> out@ == sanitize_value(s@));
        assert(!is_value ==> out@ == sanitize_name(s@));
        string_of(out.as_slice())
    }

    /// Sets the `Domain` attribute.
    pub fn set_domain(&mut self, domain: String) -> (r: &mut Cookie)
        ensures
            *r == (Cookie { domain: Some(domain), ..*old(self) }),
            *final(self) == *final(r),
    {
        self.domain = Some(domain);
        self
    }

    /// Sets the expiry date, in seconds after the Unix epoch.
    pub fn set_expires(&mut self, expires: u64) -> (r: &mut Cookie)
        ensures
            *r == (Cookie { expires: Some(expires), ..*old(self) }),
            *final(self) == *final(r),
    {
        self.expires = Some(expires);
        self
    }

    /// Sets the `HttpOnly` attribute.
    pub fn set_http_only(&mut self, http_only: bool) -> (r: &mut Cookie)
        ensures
            *r == (Cookie { http_only, ..*old(self) }),
            *final(self) == *final(r),
    {
        self.http_only = http_only;
        self
    }

    /// Sets the `Path` attribute.
    pub fn set_path(&mut self, path: &str) -> (r: &mut Cookie)
        ensures
            r.path matches Some(p) && p@ == path@,
            *r == (Cookie { path: r.path, ..*old(self) }),
            *final(self) == *final(r),
    {
        self.path = Some(String::from_str(path));
        self
    }

    /// Sets the `SameSite` attribute.
    pub fn set_same_site(&mut self, same_site: SameSite) -> (r: &mut Cookie)
        ensures
            *r == (Cookie { same_site: Some(same_site), ..*old(self) }),
            *final(self) == *final(r),
    {
        self.same_site = Some(same_site);
        self
    }

    /// Sets the `Secure` attribute.
    pub fn set_secure(&mut self, secure: bool) -> (r: &mut Cookie)
        ensures
            *r == (Cookie { secure, ..*old(self) }),
            *final(self) == *final(r),
    {
        self.secure = secure;
        self
    }

    /// The `Set-Cookie` header value for the cookie at time `now` (seconds after the
    /// Unix epoch), which `Max-Age` counts from.
    pub fn to_string(&self, now: u64) -> (r: String)
        ensures
            r@ == cookie_text(*self, now),
    {
        let mut out = chars_of(self.name.as_str());
        out.push('=');
        push_str(&mut out, self.value.as_str());
        self.push_domain(&mut out);
        self.push_expires(&mut out, now);
        self.push_flags(&mut out);
        assert(out@ =~= cookie_text(*self, now));
        string_of(out.as_slice())
    }

    fn push_domain(&self, out: &mut Vec<char>)
        ensures
            final(out)@ == old(out)@ + domain_attr(*self),
    {
        match &self.domain {
            Some(d) => {
                push_str(out, "; Domain=");
                push_str(out, d.as_str());
                assert(final(out)@ =~= old(out)@ + domain_attr(*self));
            },
            None => {
                assert(out@ =~= old(out)@ + domain_attr(*self));
            },
        }
    }

    fn push_expires(&self, out: &mut Vec<char>, now: u64)
        ensures
            final(out)@ == old(out)@ + expires_attr(*self, now),
    {
        match self.expires {
            Some(e) => {
                if e <= i64::MAX as u64 {
                    match format_time(e as i64) {
                        Some(t) => {
                            push_str(out, "; Expires=");
                            push_str(out, t.as_str());
                        },
                        None => {},
                    }
                }
                push_str(out, "; Max-Age=");
                let age: u64 = if e > now {
                    e - now
                } else {
                    0
                };
                push_decimal(out, age);
                assert(out@ =~= old(out)@ + expires_attr(*self, now));
            },
            None => {
                assert(out@ =~= old(out)@ + expires_attr(*self, now));
            },
        }
    }

    fn push_flags(&self, out: &mut Vec<char>)
        ensures
            final(out)@ == old(out)@ + http_only_attr(*self) + path_attr(*self) + same_site_attr(
                *self,
            ) + secure_attr(*self),
    {
        let ghost a0 = out@;
        if self.http_only {
            push_str(out, "; HttpOnly");
        }
        assert(out@ =~= a0 + http_only_attr(*self));
        let ghost a1 = out@;
        match &self.path {
            Some(p) => {
                push_str(out, "; Path=");
                push_str(out, p.as_str());
            },
            None => {},
        }
        assert(out@ =~= a1 + path_attr(*self));
        let ghost a2 = out@;
        let none_site = match self.same_site {
            Some(s) => {
                push_str(out, "; Same-Site=");
                let name = s.to_string();
                push_str(out, name.as_str());
                s == SameSite::NoRestriction
            },
            None => false,
        };
        assert(out@ =~= a2 + same_site_attr(*self));
        let ghost a3 = out@;
        if self.secure || none_site {
            push_str(out, "; Secure");
        }
        assert(out@ =~= a3 + secure_attr(*self));
        assert(out@ =~= a0 + http_only_attr(*self) + path_attr(*self) + same_site_attr(*self)
            + secure_attr(*self));
    }
}

/// Cookies are the same cookie when their names are equal.
impl PartialEq for Cookie {
    fn eq(&self, other: &Cookie) -> (r: bool) {
        self.name == other.name
    }
}

impl vstd::std_specs::cmp::PartialEqSpecImpl for Cookie {
    open spec fn obeys_eq_spec() -> bool {
        true
    }

    open spec fn eq_spec(&self, other: &Cookie) -> bool {
        self.name@ == other.name@
    }
}

/// A cookie built by [`Cookie::new`] is written with a name that holds no separator,
/// followed by `=`.
pub proof fn lemma_cookie_name_clean(raw_name: Seq<char>, c: Cookie, now: u64)
    requires
        c.name@ == sanitize_name(raw_name),
    ensures
        cookie_text(c, now).take(c.name@.len() as int) == c.name@,
        cookie_text(c, now)[c.name@.len() as int] == '=',
        forall|i: int|
            0 <= i < c.name@.len() ==> !is_name_separator(#[trigger] cookie_text(c, now)[i]),
{
    let t = cookie_text(c, now);
    assert(t.take(c.name@.len() as int) == c.name@);
    assert forall|i: int| 0 <= i < c.name@.len() implies !is_name_separator(
        #[trigger] cookie_text(c, now)[i],
    ) by {
        assert(t[i] == c.name@[i]);
        assert(c.name@[i] == (if is_name_separator(raw_name[i]) { '_' } else { raw_name[i] }));
    }
}

} // verus!
