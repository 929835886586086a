//! Header lines, whitespace and case folding of header names.
use vstd::prelude::*;

use crate::fields::{insert_pair, Fields, Pairs};
use crate::text::{chars_of, find_chars, split, split_once, string_of};

verus! {

/// Header fields: lower-case names on the request side, with their values.
pub type Headers = Fields;

/// Cookies sent by the client: names with their values.
pub type Cookies = Fields;

/// The lower-case form of `s` (full Unicode case mapping).
pub uninterp spec fn lower_of(s: Seq<char>) -> Seq<char>;

/// Relies on `str::to_lowercase`: the result depends on the characters of `s` alone.
#[verifier::external_body]
pub fn lowercase(s: &str) -> (r: String)
    ensures
        r@ == lower_of(s@),
{
    s.to_lowercase()
}

/// Whether `c` has the Unicode `White_Space` property.
pub open spec fn is_ws(c: char) -> bool {
    ('\t' <= c && c <= '\r') || c == ' ' || c == '\u{85}' || c == '\u{a0}' || c == '\u{1680}'
        || ('\u{2000}' <= c && c <= '\u{200a}') || c == '\u{2028}' || c == '\u{2029}' || c
        == '\u{202f}' || c == '\u{205f}' || c == '\u{3000}'
}

/// Whether `c` has the Unicode `White_Space` property.
pub fn is_ws_exec(c: char) -> (r: bool)
    ensures
        r == is_ws(c),
{
    ('\t' <= c && c <= '\r') || c == ' ' || c == '\u{85}' || c == '\u{a0}' || c == '\u{1680}'
        || ('\u{2000}' <= c && c <= '\u{200a}') || c == '\u{2028}' || c == '\u{2029}' || c
        == '\u{202f}' || c == '\u{205f}' || c == '\u{3000}'
}

/// `s` without leading whitespace.
pub open spec fn trim_start(s: Seq<char>) -> Seq<char>
    decreases s.len(),
{
    if s.len() > 0 && is_ws(s[0]) {
        trim_start(s.skip(1))
    } else {
        s
    }
}

/// `s` without trailing whitespace.
pub open spec fn trim_end(s: Seq<char>) -> Seq<char>
    decreases s.len(),
{
    if s.len() > 0 && is_ws(s.last()) {
        trim_end(s.drop_last())
    } else {
        s
    }
}

/// `s` without leading and trailing whitespace.
pub open spec fn trim(s: Seq<char>) -> Seq<char> {
    trim_end(trim_start(s))
}

/// `s` without leading and trailing whitespace.
pub fn trim_exec(s: &[char]) -> (r: Vec<char>)
    ensures
        r@ == trim(s@),
{
    let mut i: usize = 0;
    assert(s@.skip(0) == s@);
    while i < s.len() && is_ws_exec(s[i])
        invariant
            i <= s@.len(),
            trim_start(s@.skip(i as int)) == trim_start(s@),
        decreases s@.len() - i,
    {
        assert(s@.skip(i as int).skip(1) == s@.skip(i + 1));
        i = i + 1;
    }
    let mut j: usize = s.len();
    let ghost t = s@.skip(i as int);
    assert(trim_start(t) == t);
    assert(s@.subrange(i as int, j as int) == t);
    while j > i && is_ws_exec(s[j - 1])
        invariant
            i <= j <= s@.len(),
            trim_end(s@.subrange(i as int, j as int)) == trim_end(t),
        decreases j,
    {
        assert(s@.subrange(i as int, j as int).drop_last() == s@.subrange(i as int, j - 1));
        j = j - 1;
    }
    vstd::slice::slice_to_vec(vstd::slice::slice_subrange(s, i, j))
}

/// The length of the run of non-whitespace characters that starts `s`.
pub open spec fn word_len(s: Seq<char>) -> nat
    decreases s.len(),
{
    if s.len() == 0 || is_ws(s[0]) {
        0
    } else {
        1 + word_len(s.skip(1))
    }
}

/// The whitespace-separated words of `s`.
pub open spec fn words(s: Seq<char>) -> Seq<Seq<char>>
    decreases s.len(),
{
    if s.len() == 0 {
        Seq::empty()
    } else if is_ws(s[0]) {
        words(s.skip(1))
    } else {
        let n = word_len(s);
        if 0 < n <= s.len() {
            seq![s.take(n as int)] + words(s.skip(n as int))
        } else {
            Seq::empty()
        }
    }
}

proof fn lemma_word_len(s: Seq<char>)
    ensures
        word_len(s) <= s.len(),
        s.len() > 0 && !is_ws(s[0]) ==> word_len(s) > 0,
    decreases s.len(),
{
    if s.len() > 0 && !is_ws(s[0]) {
        lemma_word_len(s.skip(1));
    }
}

/// The whitespace-separated words of `s`.
pub fn split_whitespace(s: &[char]) -> (r: Vec<Vec<char>>)
    ensures
        r@.map_values(|w: Vec<char>| w@) == words(s@),
{
    let mut out: Vec<Vec<char>> = Vec::new();
    let mut i: usize = 0;
    assert(s@.skip(0) == s@);
    while i < s.len()
        invariant
            i <= s@.len(),
            out@.map_values(|w: Vec<char>| w@) + words(s@.skip(i as int)) == words(s@),
        decreases s@.len() - i,
    {
        let ghost rest = s@.skip(i as int);
        if is_ws_exec(s[i]) {
            assert(rest.skip(1) == s@.skip(i + 1));
            i = i + 1;
        } else {
            let mut j: usize = i;
            proof {
                lemma_word_len(rest);
            }
            while j < s.len() && !is_ws_exec(s[j])
                invariant
                    i <= j <= s@.len(),
                    rest == s@.skip(i as int),
                    word_len(rest) == (j - i) + word_len(s@.skip(j as int)),
                decreases s@.len() - j,
            {
                assert(s@.skip(j as int).skip(1) == s@.skip(j + 1));
                j = j + 1;
            }
            assert(word_len(s@.skip(j as int)) == 0);
            let w = vstd::slice::slice_to_vec(vstd::slice::slice_subrange(s, i, j));
            assert(w@ == rest.take((j - i) as int));
            assert(rest.skip((j - i) as int) == s@.skip(j as int));
            let ghost before = out@.map_values(|w: Vec<char>| w@);
            out.push(w);
            assert(out@.map_values(|w: Vec<char>| w@) == before.push(w@));
            assert(before + words(rest) == before.push(w@) + words(s@.skip(j as int)));
            i = j;
        }
    }
    assert(s@.skip(i as int) == Seq::<char>::empty());
    assert(out@.map_values(|w: Vec<char>| w@) + Seq::<Seq<char>>::empty() == out@.map_values(
        |w: Vec<char>| w@,
    ));
    out
}

/// `headers` with the pair of header line `line` stored: the name (lower-cased) before
/// the first `:`, the value after it with surrounding whitespace trimmed; `None` when
/// the line holds no `:`.
pub open spec fn header_line_pairs(headers: Pairs, line: Seq<char>) -> Option<Pairs> {
    match split_once(line, seq![':']) {
        Some((name, value)) => Some(insert_pair(headers, lower_of(name), trim(value))),
        None => None,
    }
}

/// Reads a header line `name: value` into `headers`: the name is lower-cased and the
/// value trimmed. `None`, with `headers` unchanged, when the line holds no `:`.
pub fn parse_header_line(headers: &mut Headers, line: &str) -> (r: Option<()>)
    requires
        old(headers).wf(),
    ensures
        final(headers).wf(),
        r is Some <==> header_line_pairs(old(headers)@, line@) is Some,
        r is Some ==> header_line_pairs(old(headers)@, line@) == Some(final(headers)@),
        r is None ==> final(headers)@ == old(headers)@,
{
    let cs = chars_of(line);
    parse_header_chars(headers, cs.as_slice())
}

/// [`parse_header_line`] on the characters of the line.
pub fn parse_header_chars(headers: &mut Headers, line: &[char]) -> (r: Option<()>)
    requires
        old(headers).wf(),
    ensures
        final(headers).wf(),
        r is Some <==> header_line_pairs(old(headers)@, line@) is Some,
        r is Some ==> header_line_pairs(old(headers)@, line@) == Some(final(headers)@),
        r is None ==> final(headers)@ == old(headers)@,
{
    let colon = [':'];
    assert(colon@ == seq![':']);
    match find_chars(line, &colon, 0) {
        Some(k) => {
            let (name, value) = line.split_at(k);
            let value = value.split_at(1).1;
            assert(value@ == line@.skip(k + 1));
            let name_s = string_of(name);
            let lower = lowercase(name_s.as_str());
            let v = trim_exec(value);
            headers.insert(lower, string_of(v.as_slice()));
            Some(())
        },
        None => None,
    }
}

/// `acc` with the pair of each line of `lines` that holds a `:` stored: the name as
/// written, the value trimmed.
pub open spec fn header_block_pairs(acc: Pairs, lines: Seq<Seq<char>>) -> Pairs
    decreases lines.len(),
{
    if lines.len() == 0 {
        acc
    } else {
        let prev = header_block_pairs(acc, lines.drop_last());
        match split_once(lines.last(), seq![':']) {
            Some((name, value)) => insert_pair(prev, name, trim(value)),
            None => prev,
        }
    }
}

/// Reads a block of `\r\n`-separated header lines: each line with a `:` gives its name
/// (as written) and its trimmed value; other lines are skipped.
pub fn parse_headers(headers: &str) -> (r: Headers)
    ensures
        r.wf(),
        r@ == header_block_pairs(Seq::empty(), split(headers@, seq!['\r', '\n'])),
{
    let cs = chars_of(headers);
    let crlf = ['\r', '\n'];
    assert(crlf@ == seq!['\r', '\n']);
    let mut acc = Fields::new();
    let mut pos: usize = 0;
    let ghost all = split(headers@, seq!['\r', '\n']);
    let ghost mut done: Seq<Seq<char>> = Seq::empty();
    assert(cs@.skip(0) == cs@);
    loop
        invariant
            cs@ == headers@,
            crlf@ == seq!['\r', '\n'],
            pos <= cs@.len(),
            acc.wf(),
            all == split(headers@, seq!['\r', '\n']),
            done + split(cs@.skip(pos as int), seq!['\r', '\n']) == all,
            acc@ == header_block_pairs(Seq::empty(), done),
        decreases cs@.len() - pos,
    {
        let rest = cs.as_slice().split_at(pos).1;
        assert(rest@ == cs@.skip(pos as int));
        let found = find_chars(rest, &crlf, 0);
        let end = match found {
            Some(k) => k,
            None => rest.len(),
        };
        let piece = rest.split_at(end).0;
        assert(piece@ == rest@.take(end as int));
        let colon = [':'];
        assert(colon@ == seq![':']);
        match find_chars(piece, &colon, 0) {
            Some(k) => {
                let (name, value) = piece.split_at(k);
                let value = value.split_at(1).1;
                assert(value@ == piece@.skip(k + 1));
                let v = trim_exec(value);
                acc.insert(string_of(name), string_of(v.as_slice()));
            },
            None => {},
        }
        let ghost prev = done;
        proof {
            done = done.push(piece@);
            assert(done.drop_last() == prev);
        }
        match found {
            Some(k) => {
                assert(k + 2 <= rest@.len() && rest@.len() == cs@.len() - pos);
                assert(cs@.len() == cs.len());
                assert(split(rest@, seq!['\r', '\n']) == seq![piece@] + split(
                    rest@.skip(k + 2),
                    seq!['\r', '\n'],
                ));
                assert(rest@.skip(k + 2) == cs@.skip(pos + k + 2));
                assert(done + split(cs@.skip(pos + k + 2), seq!['\r', '\n']) == all) by {
                    assert(prev + (seq![piece@] + split(rest@.skip(k + 2), seq!['\r', '\n']))
                        == prev.push(piece@) + split(rest@.skip(k + 2), seq!['\r', '\n']));
                }
                pos = pos + k + 2;
            },
            None => {
                assert(piece@ == rest@);
                assert(split(rest@, seq!['\r', '\n']) == seq![rest@]);
                assert(done == all);
                return acc;
            },
        }
    }
}

} // verus!
