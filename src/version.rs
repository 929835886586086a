//! Protocol versions of the form `HTTP/<major>.<minor>`.
use vstd::prelude::*;

use crate::text::{chars_of, decimal, digit_char, push_decimal, split_once, string_of};

verus! {

/// Whether `c` is an ASCII decimal digit.
pub open spec fn is_digit(c: char) -> bool {
    '0' <= c && c <= '9'
}

/// The value of a string of decimal digits (0 for the empty string).
pub open spec fn digits_value(s: Seq<char>) -> nat
    decreases s.len(),
{
    if s.len() == 0 {
        0
    } else {
        digits_value(s.drop_last()) * 10 + (s.last() as nat - 48) as nat
    }
}

/// Whether `s` is a non-empty string of decimal digits.
pub open spec fn all_digits(s: Seq<char>) -> bool {
    s.len() > 0 && forall|i: int| 0 <= i < s.len() ==> is_digit(#[trigger] s[i])
}

/// The number that the non-empty digit string `s` spells, when it fits in a `usize`.
pub open spec fn parse_decimal(s: Seq<char>) -> Option<usize> {
    if all_digits(s) && digits_value(s) <= usize::MAX {
        Some(digits_value(s) as usize)
    } else {
        None
    }
}

/// Reads the decimal number that `s` spells; `None` when `s` is empty, holds anything
/// but digits or spells a number beyond `usize::MAX`.
pub fn parse_decimal_exec(s: &[char]) -> (r: Option<usize>)
    ensures
        r == parse_decimal(s@),
{
    if s.len() == 0 {
        return None;
    }
    let mut val: usize = 0;
    let mut over = false;
    let mut i: usize = 0;
    while i < s.len()
        invariant
            i <= s@.len(),
            forall|j: int| 0 <= j < i ==> is_digit(#[trigger] s@[j]),
            !over ==> val == digits_value(s@.take(i as int)),
            over ==> digits_value(s@.take(i as int)) > usize::MAX,
        decreases s@.len() - i,
    {
        let c = s[i];
        if !('0' <= c && c <= '9') {
            return None;
        }
        let d: usize = (c as u32 - 48) as usize;
        assert(s@.take(i + 1).drop_last() == s@.take(i as int));
        if !over {
            if val > (usize::MAX - d) / 10 {
                over = true;
                assert(val * 10 + d > usize::MAX) by (nonlinear_arith)
                    requires
                        val > (usize::MAX - d) / 10,
                        d < 10,
                ;
            } else {
                assert(val * 10 + d <= usize::MAX) by (nonlinear_arith)
                    requires
                        val <= (usize::MAX - d) / 10,
                        d < 10,
                ;
                val = val * 10 + d;
            }
        }
        i = i + 1;
    }
    assert(s@.take(s@.len() as int) == s@);
    if over {
        None
    } else {
        Some(val)
    }
}

/// A protocol version.
#[derive(PartialEq, Eq, Structural, Clone, Copy, Debug)]
pub struct Version {
    /// The major revision.
    pub major: usize,
    /// The minor revision.
    pub minor: usize,
}

/// The version that `s` spells: exactly `HTTP/`, a digit string, `.`, a digit string,
/// each number fitting in a `usize`.
pub open spec fn parse_version(s: Seq<char>) -> Option<Version> {
    if s.len() >= 5 && s.take(5) == "HTTP/"@ {
        match split_once(s.skip(5), seq!['.']) {
            Some((a, b)) => match (parse_decimal(a), parse_decimal(b)) {
                (Some(major), Some(minor)) => Some(Version { major, minor }),
                _ => None,
            },
            None => None,
        }
    } else {
        None
    }
}

/// The text of a version: `HTTP/<major>.<minor>`.
pub open spec fn render_version(v: Version) -> Seq<char> {
    "HTTP/"@ + decimal(v.major as nat) + seq!['.'] + decimal(v.minor as nat)
}

/// Whether `s` is a digit string without a superfluous leading zero.
pub open spec fn canonical_digits(s: Seq<char>) -> bool {
    all_digits(s) && (s.len() == 1 || s[0] != '0')
}

impl Version {
    /// Parses a version of the form `HTTP/<major>.<minor>`; `None` for anything else.
    pub fn new(version: &str) -> (r: Option<Version>)
        ensures
            r == parse_version(version@),
    {
        let s = chars_of(version);
        if s.len() < 5 {
            return None;
        }
        let head = ['H', 'T', 'T', 'P', '/'];
        let mut i: usize = 0;
        while i < 5
            invariant
                s@.len() >= 5,
                s@ == version@,
                head@ == seq!['H', 'T', 'T', 'P', '/'],
                i <= 5,
                forall|j: int| 0 <= j < i ==> s@[j] == head@[j],
            decreases 5 - i,
        {
            if s[i] != head[i] {
                proof {
                    reveal_strlit("HTTP/");
                    assert("HTTP/"@ =~= head@);
                    assert(s@.take(5)[i as int] != "HTTP/"@[i as int]);
                }
                return None;
            }
            i = i + 1;
        }
        proof {
            reveal_strlit("HTTP/");
            assert(s@.take(5) == "HTTP/"@);
        }
        let rest = s.as_slice().split_at(5).1;
        assert(rest@ == s@.skip(5));
        let dot = ['.'];
        assert(dot@ == seq!['.']);
        match crate::text::find_chars(rest, &dot, 0) {
            None => None,
            Some(k) => {
                let (a, b) = rest.split_at(k);
                let b = b.split_at(1).1;
                assert(a@ == rest@.take(k as int));
                assert(b@ == rest@.skip(k + 1));
                match (parse_decimal_exec(a), parse_decimal_exec(b)) {
                    (Some(major), Some(minor)) => Some(Version { major, minor }),
                    _ => None,
                }
            },
        }
    }

    /// The text of the version, `HTTP/<major>.<minor>`.
    pub fn to_string(&self) -> (r: String)
        ensures
            r@ == render_version(*self),
    {
        let mut out: Vec<char> = Vec::new();
        out.push('H');
        out.push('T');
        out.push('T');
        out.push('P');
        out.push('/');
        push_decimal(&mut out, self.major as u64);
        out.push('.');
        push_decimal(&mut out, self.minor as u64);
        proof {
            reveal_strlit("HTTP/");
        }
        assert(out@ == render_version(*self));
        string_of(out.as_slice())
    }
}

proof fn lemma_digits_value_positive(s: Seq<char>)
    requires
        canonical_digits(s),
        s.len() > 1,
    ensures
        digits_value(s) >= 10,
    decreases s.len(),
{
    let t = s.drop_last();
    assert(t[0] == s[0]);
    assert(all_digits(t)) by {
        assert forall|i: int| 0 <= i < t.len() implies is_digit(t[i]) by {
            assert(t[i] == s[i]);
        }
    }
    if t.len() > 1 {
        lemma_digits_value_positive(t);
    } else {
        assert(t == seq![s[0]]);
        assert(t.drop_last().len() == 0);
    }
}

proof fn lemma_decimal_of_digits(s: Seq<char>)
    requires
        canonical_digits(s),
    ensures
        decimal(digits_value(s)) == s,
    decreases s.len(),
{
    let t = s.drop_last();
    let d = (s.last() as nat - 48) as nat;
    assert(is_digit(s[s.len() - 1]));
    assert(d < 10);
    if s.len() == 1 {
        assert(t.len() == 0);
        assert(digits_value(s) == d);
        assert(digit_char(d) == s[0]);
        assert(decimal(d) == seq![s[0]]);
        assert(s == seq![s[0]]);
    } else {
        assert(t[0] == s[0]);
        assert(canonical_digits(t)) by {
            assert forall|i: int| 0 <= i < t.len() implies is_digit(#[trigger] t[i]) by {
                assert(t[i] == s[i]);
            }
        }
        lemma_decimal_of_digits(t);
        lemma_digits_value_positive(s);
        let v = digits_value(s);
        let w = digits_value(t);
        assert(v == w * 10 + d);
        assert(v / 10 == w && v % 10 == d) by (nonlinear_arith)
            requires
                v == w * 10 + d,
                d < 10,
        ;
        assert(digit_char(d) == s.last());
        assert(s == t.push(s.last()));
    }
}

/// A version text that parses, with no superfluous leading zero in either number,
/// renders back to exactly that text.
pub proof fn lemma_version_round_trip(s: Seq<char>)
    requires
        parse_version(s) is Some,
        split_once(s.skip(5), seq!['.']) matches Some((a, b)) && canonical_digits(a)
            && canonical_digits(b),
    ensures
        render_version(parse_version(s)->0) == s,
{
    let rest = s.skip(5);
    let pair = split_once(rest, seq!['.'])->0;
    let a = pair.0;
    let b = pair.1;
    crate::text::lemma_find_from_bounds(rest, seq!['.'], 0);
    let k = crate::text::find_from(rest, seq!['.'], 0)->0;
    assert(rest[k] == '.') by {
        assert(rest.subrange(k, k + 1)[0] == rest[k]);
    }
    lemma_decimal_of_digits(a);
    lemma_decimal_of_digits(b);
    let v = parse_version(s)->0;
    assert(decimal(v.major as nat) == a);
    assert(decimal(v.minor as nat) == b);
    assert(rest =~= a + seq!['.'] + b);
    assert(s =~= s.take(5) + rest);
}

} // verus!
