//! Strings as character sequences: conversions, searching, splitting, and numbers
//! written in decimal and hexadecimal.
use vstd::prelude::*;

verus! {

/// Relies on `String::push`: the character is appended at the end of the string.
pub assume_specification[ String::push ](s: &mut String, ch: char)
    ensures
        final(s)@ == old(s)@.push(ch),
;

/// The characters of `s`, in order.
pub fn chars_of(s: &str) -> (r: Vec<char>)
    ensures
        r@ == s@,
{
    let mut r: Vec<char> = Vec::new();
    for c in it: s.chars()
        invariant
            r@ == it.seq().take(it.index() as int),
            it.seq() == s@,
    {
        r.push(c);
    }
    r
}

/// The string made of the characters of `v`, in order.
pub fn string_of(v: &[char]) -> (r: String)
    ensures
        r@ == v@,
{
    let mut r = String::new();
    let mut i: usize = 0;
    while i < v.len()
        invariant
            i <= v@.len(),
            r@ == v@.take(i as int),
        decreases v@.len() - i,
    {
        r.push(v[i]);
        i = i + 1;
        assert(v@.take(i as int) == v@.take((i - 1) as int).push(v@[i - 1]));
    }
    assert(v@.take(v@.len() as int) == v@);
    r
}

/// Appends the characters of `s` to `out`.
pub fn push_str(out: &mut Vec<char>, s: &str)
    ensures
        final(out)@ == old(out)@ + s@,
{
    for c in it: s.chars()
        invariant
            out@ == old(out)@ + it.seq().take(it.index() as int),
            it.seq() == s@,
    {
        out.push(c);
    }
}

/// Whether two strings hold the same characters.
pub fn str_eq(a: &str, b: &str) -> (r: bool)
    ensures
        r == (a@ == b@),
{
    let x = chars_of(a);
    let y = chars_of(b);
    if x.len() != y.len() {
        return false;
    }
    let mut i: usize = 0;
    while i < x.len()
        invariant
            x@ == a@,
            y@ == b@,
            x@.len() == y@.len(),
            i <= x@.len(),
            forall|j: int| 0 <= j < i ==> x@[j] == y@[j],
        decreases x@.len() - i,
    {
        if x[i] != y[i] {
            return false;
        }
        i = i + 1;
    }
    assert(x@ == y@);
    true
}

/// The decimal digit for `d < 10`.
pub open spec fn digit_char(d: nat) -> char {
    (d + 48) as char
}

/// The decimal representation of `n`, without leading zeros.
pub open spec fn decimal(n: nat) -> Seq<char>
    decreases n,
{
    if n < 10 {
        seq![digit_char(n)]
    } else {
        decimal(n / 10).push(digit_char(n % 10))
    }
}

/// Appends the decimal representation of `n` to `out`.
pub fn push_decimal(out: &mut Vec<char>, n: u64)
    ensures
        final(out)@ == old(out)@ + decimal(n as nat),
    decreases n,
{
    if n >= 10 {
        push_decimal(out, n / 10);
    }
    let d: u8 = (n % 10) as u8;
    out.push((d + 48) as char);
    proof {
        if n >= 10 {
            assert(old(out)@ + decimal(n as nat) == old(out)@ + decimal((n / 10) as nat) + seq![
                digit_char((n % 10) as nat),
            ]);
        }
    }
}

/// The first index at or after `i` where `p` occurs in `s`.
pub open spec fn find_from<A>(s: Seq<A>, p: Seq<A>, i: int) -> Option<int>
    decreases s.len() + 1 - i,
{
    if i < 0 || i + p.len() > s.len() {
        None
    } else if s.subrange(i, i + p.len()) == p {
        Some(i)
    } else {
        find_from(s, p, i + 1)
    }
}

/// `s` split at the first occurrence of `p`, the occurrence itself left out.
pub open spec fn split_once<A>(s: Seq<A>, p: Seq<A>) -> Option<(Seq<A>, Seq<A>)> {
    match find_from(s, p, 0) {
        Some(i) => Some((s.take(i), s.skip(i + p.len()))),
        None => None,
    }
}

/// The pieces of `s` between the occurrences of the non-empty `p`.
pub open spec fn split<A>(s: Seq<A>, p: Seq<A>) -> Seq<Seq<A>>
    decreases s.len(),
{
    if p.len() == 0 {
        seq![s]
    } else {
        match find_from(s, p, 0) {
            Some(i) => if 0 <= i && i + p.len() <= s.len() {
                seq![s.take(i)] + split(s.skip(i + p.len()), p)
            } else {
                seq![s]
            },
            None => seq![s],
        }
    }
}

pub proof fn lemma_find_from_bounds<A>(s: Seq<A>, p: Seq<A>, i: int)
    ensures
        find_from(s, p, i) matches Some(k) ==> i <= k && k + p.len() <= s.len()
            && s.subrange(k, k + p.len()) == p,
    decreases s.len() + 1 - i,
{
    if !(i < 0 || i + p.len() > s.len()) && s.subrange(i, i + p.len()) != p {
        lemma_find_from_bounds(s, p, i + 1);
    }
}

/// The first index at or after `from` where `p` occurs in `s`.
pub fn find_chars(s: &[char], p: &[char], from: usize) -> (r: Option<usize>)
    ensures
        r matches Some(k) ==> find_from(s@, p@, from as int) == Some(k as int),
        r is None ==> find_from(s@, p@, from as int) is None,
        r matches Some(k) ==> from <= k && k + p@.len() <= s@.len(),
{
    let mut i = from;
    while i <= s.len() && p.len() <= s.len() - i
        invariant
            from <= i,
            find_from(s@, p@, from as int) == find_from(s@, p@, i as int),
        decreases s@.len() + 1 - i,
    {
        let mut j: usize = 0;
        let mut same = true;
        while j < p.len()
            invariant
                    i + p@.len() <= s.len(),
                s.len() == s@.len(),
                j <= p@.len(),
                same == (forall|k: int| 0 <= k < j ==> s@[i + k] == p@[k]),
            decreases p@.len() - j,
        {
            assert(i + j < s@.len());
            if s[i + j] != p[j] {
                same = false;
            }
            j = j + 1;
        }
        if same {
            assert(s@.subrange(i as int, i + p@.len()) == p@);
            proof { lemma_find_from_bounds(s@, p@, from as int); }
            return Some(i);
        }
        assert(s@.subrange(i as int, i + p@.len()) != p@) by {
            let k = choose|k: int| 0 <= k < p@.len() && s@[i + k] != p@[k];
            assert(s@.subrange(i as int, i + p@.len())[k] != p@[k]);
        }
        i = i + 1;
    }
    None
}

/// The first index at or after `from` where `p` occurs in `s`.
pub fn find_bytes(s: &[u8], p: &[u8], from: usize) -> (r: Option<usize>)
    ensures
        r matches Some(k) ==> find_from(s@, p@, from as int) == Some(k as int),
        r is None ==> find_from(s@, p@, from as int) is None,
        r matches Some(k) ==> from <= k && k + p@.len() <= s@.len(),
{
    let mut i = from;
    while i <= s.len() && p.len() <= s.len() - i
        invariant
            from <= i,
            find_from(s@, p@, from as int) == find_from(s@, p@, i as int),
        decreases s@.len() + 1 - i,
    {
        let mut j: usize = 0;
        let mut same = true;
        while j < p.len()
            invariant
                    i + p@.len() <= s.len(),
                s.len() == s@.len(),
                j <= p@.len(),
                same == (forall|k: int| 0 <= k < j ==> s@[i + k] == p@[k]),
            decreases p@.len() - j,
        {
            assert(i + j < s@.len());
            if s[i + j] != p[j] {
                same = false;
            }
            j = j + 1;
        }
        if same {
            assert(s@.subrange(i as int, i + p@.len()) == p@);
            proof { lemma_find_from_bounds(s@, p@, from as int); }
            return Some(i);
        }
        assert(s@.subrange(i as int, i + p@.len()) != p@) by {
            let k = choose|k: int| 0 <= k < p@.len() && s@[i + k] != p@[k];
            assert(s@.subrange(i as int, i + p@.len())[k] != p@[k]);
        }
        i = i + 1;
    }
    None
}

/// The lower-case hex digit for `d < 16`.
pub open spec fn hex_char(d: nat) -> char {
    if d < 10 {
        (d + 48) as char
    } else {
        (d + 87) as char
    }
}

/// The lower-case hexadecimal representation of `n`, without leading zeros.
pub open spec fn hex_lower(n: nat) -> Seq<char>
    decreases n,
{
    if n < 16 {
        seq![hex_char(n)]
    } else {
        hex_lower(n / 16).push(hex_char(n % 16))
    }
}

/// Appends the lower-case hexadecimal representation of `n` to `out`.
pub fn push_hex(out: &mut Vec<char>, n: usize)
    ensures
        final(out)@ == old(out)@ + hex_lower(n as nat),
    decreases n,
{
    if n >= 16 {
        push_hex(out, n / 16);
    }
    let d: u8 = (n % 16) as u8;
    if d < 10 {
        out.push((d + 48) as char);
    } else {
        out.push((d + 87) as char);
    }
    proof {
        if n >= 16 {
            assert(old(out)@ + hex_lower(n as nat) == old(out)@ + hex_lower((n / 16) as nat) + seq![
                hex_char((n % 16) as nat),
            ]);
        }
    }
}

} // verus!
