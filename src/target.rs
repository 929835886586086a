//! Request targets: a percent-decoded path and the query pairs after `?`.
use vstd::prelude::*;

use crate::fields::{insert_pair, Fields, Pairs};
use crate::text::{chars_of, find_chars, find_from, split_once, string_of};

verus! {

/// Whether `c` is a hexadecimal digit (either case).
pub open spec fn is_hex(c: char) -> bool {
    ('0' <= c && c <= '9') || ('a' <= c && c <= 'f') || ('A' <= c && c <= 'F')
}

/// The value of the hexadecimal digit `c`.
pub open spec fn hex_value(c: char) -> nat {
    if '0' <= c && c <= '9' {
        (c as nat - 48) as nat
    } else if 'a' <= c && c <= 'f' {
        (c as nat - 87) as nat
    } else {
        (c as nat - 55) as nat
    }
}

/// `s` with each `%` followed by two hex digits replaced by the character whose code
/// point those digits spell; any other `%` is kept.
pub open spec fn decode(s: Seq<char>) -> Seq<char>
    decreases s.len(),
{
    if s.len() == 0 {
        Seq::empty()
    } else if s[0] == '%' && s.len() >= 3 && is_hex(s[1]) && is_hex(s[2]) {
        seq![(hex_value(s[1]) * 16 + hex_value(s[2])) as char] + decode(s.skip(3))
    } else {
        seq![s[0]] + decode(s.skip(1))
    }
}

/// `acc` with the pair of `piece` (split at its first `=`) stored, if it has one.
pub open spec fn add_query(acc: Pairs, piece: Seq<char>) -> Pairs {
    match split_once(piece, seq!['=']) {
        Some((name, value)) => insert_pair(acc, name, value),
        None => acc,
    }
}

/// `acc` with the pairs of the pieces of `q` between occurrences of the non-empty
/// `sep` stored, in order.
pub open spec fn pairs_from(acc: Pairs, q: Seq<char>, sep: Seq<char>) -> Pairs
    decreases q.len(),
{
    if sep.len() == 0 {
        add_query(acc, q)
    } else {
        match find_from(q, sep, 0) {
            Some(i) => if 0 <= i && i + sep.len() <= q.len() {
                pairs_from(add_query(acc, q.take(i)), q.skip(i + sep.len()), sep)
            } else {
                add_query(acc, q)
            },
            None => add_query(acc, q),
        }
    }
}

/// The query pairs of a query string.
pub open spec fn parse_queries(q: Seq<char>) -> Pairs {
    pairs_from(Seq::empty(), q, seq!['&'])
}

/// The path part of a raw target: the decoded text before the first `?`.
pub open spec fn target_path_of(raw: Seq<char>) -> Seq<char> {
    match split_once(decode(raw), seq!['?']) {
        Some((p, _)) => p,
        None => decode(raw),
    }
}

/// The query part of a raw target: the decoded text after the first `?`.
pub open spec fn target_query_of(raw: Seq<char>) -> Seq<char> {
    match split_once(decode(raw), seq!['?']) {
        Some((_, q)) => q,
        None => Seq::empty(),
    }
}

/// `name=value` pairs joined by `&`.
pub open spec fn render_queries(s: Pairs) -> Seq<char>
    decreases s.len(),
{
    if s.len() == 0 {
        Seq::empty()
    } else if s.len() == 1 {
        s[0].0 + seq!['='] + s[0].1
    } else {
        render_queries(s.drop_last()) + seq!['&'] + s.last().0 + seq!['='] + s.last().1
    }
}

/// The target of a request.
#[derive(Clone, Debug)]
pub struct Target {
    /// The path of the directory handler that took the request; empty until the
    /// router hands the request to one.
    pub target_path: String,
    /// The rest of the path, after `target_path`.
    pub relative_path: String,
    /// The query pairs, in the order in which they first appeared.
    pub queries: Fields,
}

/// The value of hex digit `c`.
fn hex_digit_value(c: char) -> (r: u32)
    requires
        is_hex(c),
    ensures
        r == hex_value(c),
        r < 16,
{
    if '0' <= c && c <= '9' {
        c as u32 - 48
    } else if 'a' <= c && c <= 'f' {
        c as u32 - 87
    } else {
        c as u32 - 55
    }
}

fn is_hex_exec(c: char) -> (r: bool)
    ensures
        r == is_hex(c),
{
    ('0' <= c && c <= '9') || ('a' <= c && c <= 'f') || ('A' <= c && c <= 'F')
}

/// The character with code point `n < 256`.
fn latin1_char(n: u32) -> (r: char)
    requires
        n < 256,
    ensures
        r == n as char,
{
    let b: u8 = n as u8;
    b as char
}

impl Target {
    /// Whole path: `target_path` followed by `relative_path`.
    pub open spec fn full_url_spec(&self) -> Seq<char> {
        self.target_path@ + self.relative_path@
    }

    /// Parses a raw request target: percent-decodes it, splits it at the first `?`,
    /// and reads `name=value` pairs from the `&`-separated query (pieces without `=`
    /// are dropped; a repeated name keeps its last value).
    pub fn new(target: &str) -> (r: Target)
        ensures
            r.target_path@ == Seq::<char>::empty(),
            r.relative_path@ == target_path_of(target@),
            r.queries@ == parse_queries(target_query_of(target@)),
            r.queries.wf(),
    {
        let raw = chars_of(target);
        let decoded = Target::decode_url(raw.as_slice());
        let q = ['?'];
        assert(q@ == seq!['?']);
        match find_chars(decoded.as_slice(), &q, 0) {
            Some(k) => {
                let (p, rest) = decoded.as_slice().split_at(k);
                let rest = rest.split_at(1).1;
                assert(p@ == decode(target@).take(k as int));
                assert(rest@ == decode(target@).skip(k + 1));
                let amp = ['&'];
                assert(amp@ == seq!['&']);
                let queries = parse_pairs(rest, &amp);
                Target {
                    target_path: String::new(),
                    relative_path: string_of(p),
                    queries,
                }
            },
            None => {
                proof {
                    reveal_strlit("");
                }
                assert(Seq::<char>::empty().len() == 0);
                let r = Target {
                    target_path: String::new(),
                    relative_path: string_of(decoded.as_slice()),
                    queries: Fields::new(),
                };
                assert(r.queries@ == parse_queries(Seq::empty())) by {
                    assert(find_from(Seq::<char>::empty(), seq!['&'], 0) is None);
                    assert(split_once(Seq::<char>::empty(), seq!['=']) is None);
                }
                r
            },
        }
    }

    /// The whole path: `target_path` followed by `relative_path`.
    pub fn full_url(&self) -> (r: String)
        ensures
            r@ == self.full_url_spec(),
    {
        let mut out = chars_of(self.target_path.as_str());
        crate::text::push_str(&mut out, self.relative_path.as_str());
        string_of(out.as_slice())
    }

    /// Percent-decodes `encoded` (see [`decode`]).
    pub fn decode_url(encoded: &[char]) -> (r: Vec<char>)
        ensures
            r@ == decode(encoded@),
    {
        let mut out: Vec<char> = Vec::new();
        let mut i: usize = 0;
        assert(encoded@.skip(0) == encoded@);
        while i < encoded.len()
            invariant
                i <= encoded@.len(),
                out@ + decode(encoded@.skip(i as int)) == decode(encoded@),
            decreases encoded@.len() - i,
        {
            let ghost rest = encoded@.skip(i as int);
            if encoded[i] == '%' && encoded.len() - i >= 3 && is_hex_exec(encoded[i + 1])
                && is_hex_exec(encoded[i + 2]) {
                let v = hex_digit_value(encoded[i + 1]) * 16 + hex_digit_value(encoded[i + 2]);
                let c = latin1_char(v);
                assert(rest[1] == encoded@[i + 1] && rest[2] == encoded@[i + 2]);
                assert(rest.skip(3) == encoded@.skip(i + 3));
                out.push(c);
                i = i + 3;
            } else {
                assert(rest.skip(1) == encoded@.skip(i + 1));
                assert(rest[0] == encoded@[i as int]);
                proof {
                    if rest[0] == '%' && rest.len() >= 3 {
                        assert(rest[1] == encoded@[i + 1] && rest[2] == encoded@[i + 2]);
                    }
                }
                out.push(encoded[i]);
                i = i + 1;
            }
        }
        assert(encoded@.skip(i as int) == Seq::<char>::empty());
        out
    }

    /// The target as text: the whole path, then `?` and the `name=value` pairs joined
    /// by `&` when there are any.
    pub fn to_string(&self) -> (r: String)
        ensures
            r@ == render_target(self.full_url_spec(), self.queries@),
    {
        let mut out = chars_of(self.target_path.as_str());
        crate::text::push_str(&mut out, self.relative_path.as_str());
        let n = self.queries.len();
        if n > 0 {
            out.push('?');
            let ghost start = out@;
            let mut i: usize = 0;
            while i < n
                invariant
                    n == self.queries@.len(),
                    i <= n,
                    out@ == start + render_queries(self.queries@.take(i as int)),
                decreases n - i,
            {
                let (k, v) = self.queries.entry(i);
                if i > 0 {
                    out.push('&');
                }
                crate::text::push_str(&mut out, k.as_str());
                out.push('=');
                crate::text::push_str(&mut out, v.as_str());
                let ghost t = self.queries@.take(i + 1);
                assert(t.drop_last() == self.queries@.take(i as int));
                assert(t.last() == self.queries@[i as int]);
                i = i + 1;
            }
            assert(self.queries@.take(n as int) == self.queries@);
        }
        assert(out@ =~= render_target(self.full_url_spec(), self.queries@));
        string_of(out.as_slice())
    }
}

/// Reads the `name=value` pairs of `q`, whose pieces are separated by the non-empty
/// `sep` (see [`pairs_from`]).
pub fn parse_pairs(q: &[char], sep: &[char]) -> (r: Fields)
    requires
        sep@.len() > 0,
    ensures
        r@ == pairs_from(Seq::empty(), q@, sep@),
        r.wf(),
{
    let mut acc = Fields::new();
    let mut pos: usize = 0;
    assert(q@.skip(0) == q@);
    loop
        invariant
            pos <= q@.len(),
            sep@.len() > 0,
            acc.wf(),
            pairs_from(acc@, q@.skip(pos as int), sep@) == pairs_from(Seq::empty(), q@, sep@),
        decreases q@.len() - pos,
    {
        let rest = q.split_at(pos).1;
        assert(rest@ == q@.skip(pos as int));
        match find_chars(rest, sep, 0) {
            Some(k) => {
                let (piece, _) = rest.split_at(k);
                assert(piece@ == rest@.take(k as int));
                assert(rest@.len() == q@.len() - pos);
                assert(q@.len() == q.len());
                assert(k + sep@.len() <= rest@.len());
                add_query_exec(&mut acc, piece);
                assert(rest@.skip(k + sep@.len()) == q@.skip(pos + k + sep@.len()));
                pos = pos + k + sep.len();
            },
            None => {
                add_query_exec(&mut acc, rest);
                return acc;
            },
        }
    }
}

fn add_query_exec(acc: &mut Fields, piece: &[char])
    requires
        old(acc).wf(),
    ensures
        final(acc).wf(),
        final(acc)@ == add_query(old(acc)@, piece@),
{
    let eq = ['='];
    assert(eq@ == seq!['=']);
    match find_chars(piece, &eq, 0) {
        Some(k) => {
            let (name, value) = piece.split_at(k);
            let value = value.split_at(1).1;
            assert(value@ == piece@.skip(k + 1));
            acc.insert(string_of(name), string_of(value));
        },
        None => {},
    }
}

/// The text of a target with path `path` and query pairs `q`: the path, then `?` and
/// the `name=value` pairs joined by `&` when there are any.
pub open spec fn render_target(path: Seq<char>, q: Pairs) -> Seq<char> {
    path + (if q.len() == 0 {
        Seq::empty()
    } else {
        seq!['?'] + render_queries(q)
    })
}

/// Whether `c` does not occur in `s`.
pub open spec fn free_of(s: Seq<char>, c: char) -> bool {
    forall|i: int| 0 <= i < s.len() ==> s[i] != c
}

/// Whether a query pair renders without characters that parsing would read apart:
/// no `%` anywhere, no `&` anywhere, no `=` in the name.
pub open spec fn plain_pair(p: (Seq<char>, Seq<char>)) -> bool {
    free_of(p.0, '%') && free_of(p.0, '&') && free_of(p.0, '=') && free_of(p.1, '%') && free_of(
        p.1,
        '&',
    )
}

proof fn lemma_decode_plain(s: Seq<char>)
    requires
        free_of(s, '%'),
    ensures
        decode(s) == s,
    decreases s.len(),
{
    if s.len() > 0 {
        assert(free_of(s.skip(1), '%')) by {
            assert forall|i: int| 0 <= i < s.skip(1).len() implies s.skip(1)[i] != '%' by {
                assert(s.skip(1)[i] == s[i + 1]);
            }
        }
        lemma_decode_plain(s.skip(1));
        assert(s == seq![s[0]] + s.skip(1));
    }
}

proof fn lemma_find_single(s: Seq<char>, c: char, i: int, j: int)
    requires
        0 <= i <= j < s.len(),
        s[j] == c,
        forall|k: int| i <= k < j ==> s[k] != c,
    ensures
        find_from(s, seq![c], i) == Some(j),
    decreases j - i,
{
    assert(seq![c].len() == 1);
    assert(s.subrange(i, i + 1) =~= seq![s[i]]);
    assert(seq![s[i]] == seq![c] ==> seq![s[i]][0] == seq![c][0]);
    if i < j {
        lemma_find_single(s, c, i + 1, j);
    }
}

proof fn lemma_find_single_none(s: Seq<char>, c: char, i: int)
    requires
        0 <= i,
        forall|k: int| i <= k < s.len() ==> s[k] != c,
    ensures
        find_from(s, seq![c], i) is None,
    decreases s.len() + 1 - i,
{
    assert(seq![c].len() == 1);
    if i + 1 <= s.len() {
        assert(s.subrange(i, i + 1) =~= seq![s[i]]);
        assert(seq![s[i]] == seq![c] ==> seq![s[i]][0] == seq![c][0]);
        lemma_find_single_none(s, c, i + 1);
    }
}

/// The rendered text of one pair.
pub open spec fn pair_text(p: (Seq<char>, Seq<char>)) -> Seq<char> {
    p.0 + seq!['='] + p.1
}

proof fn lemma_render_front(q: Pairs)
    requires
        q.len() >= 2,
    ensures
        render_queries(q) == pair_text(q[0]) + seq!['&'] + render_queries(q.skip(1)),
    decreases q.len(),
{
    if q.len() == 2 {
        assert(q.drop_last().len() == 1);
        assert(q.skip(1).len() == 1);
        assert(q.drop_last()[0] == q[0]);
        assert(q.skip(1)[0] == q.last());
        assert(render_queries(q.drop_last()) == pair_text(q[0]));
        assert(render_queries(q.skip(1)) == pair_text(q.last()));
        assert(render_queries(q) == render_queries(q.drop_last()) + seq!['&'] + q.last().0 + seq![
            '=',
        ] + q.last().1);
        assert(render_queries(q) =~= pair_text(q[0]) + seq!['&'] + render_queries(q.skip(1)));
    } else {
        lemma_render_front(q.drop_last());
        assert(q.drop_last().skip(1) == q.skip(1).drop_last());
        assert(q.skip(1).last() == q.last());
        assert(render_queries(q) =~= pair_text(q[0]) + seq!['&'] + render_queries(q.skip(1)));
    }
}

proof fn lemma_render_free(q: Pairs, c: char)
    requires
        c != '&' && c != '=',
        forall|i: int| 0 <= i < q.len() ==> free_of(#[trigger] q[i].0, c) && free_of(q[i].1, c),
    ensures
        free_of(render_queries(q), c),
    decreases q.len(),
{
    if q.len() > 1 {
        lemma_render_free(q.drop_last(), c);
        assert(q.drop_last().len() == q.len() - 1);
    }
    if q.len() > 0 {
        let r = render_queries(q);
        assert forall|i: int| 0 <= i < r.len() implies r[i] != c by {
            if q.len() == 1 {
                assert(free_of(q[0].0, c) && free_of(q[0].1, c));
            } else {
                assert(forall|k: int| 0 <= k < q.drop_last().len() ==> q.drop_last()[k] == q[k]);
                assert(free_of(q.last().0, c) && free_of(q.last().1, c));
            }
        }
    }
}

proof fn lemma_pair_split(p: (Seq<char>, Seq<char>))
    requires
        plain_pair(p),
    ensures
        split_once(pair_text(p), seq!['=']) == Some((p.0, p.1)),
        free_of(pair_text(p), '&'),
{
    let t = pair_text(p);
    assert(t[p.0.len() as int] == '=');
    assert forall|k: int| 0 <= k < p.0.len() implies t[k] != '=' by {
        assert(t[k] == p.0[k]);
    }
    lemma_find_single(t, '=', 0, p.0.len() as int);
    assert(t.take(p.0.len() as int) =~= p.0);
    assert(t.skip(p.0.len() as int + 1) =~= p.1);
    assert forall|k: int| 0 <= k < t.len() implies t[k] != '&' by {
        if k < p.0.len() {
            assert(t[k] == p.0[k]);
        } else if k > p.0.len() {
            assert(t[k] == p.1[k - p.0.len() - 1]);
        }
    }
}

proof fn lemma_pairs_from_render(acc: Pairs, q: Pairs)
    requires
        q.len() >= 1,
        forall|i: int| 0 <= i < q.len() ==> plain_pair(#[trigger] q[i]),
        crate::fields::unique_keys(acc + q),
    ensures
        pairs_from(acc, render_queries(q), seq!['&']) == acc + q,
    decreases q.len(),
{
    let first = pair_text(q[0]);
    lemma_pair_split(q[0]);
    crate::fields::lemma_key_index(acc, q[0].0);
    assert((acc + q)[acc.len() as int] == q[0]);
    if crate::fields::key_index(acc, q[0].0) >= 0 {
        let x = crate::fields::key_index(acc, q[0].0);
        assert((acc + q)[x] == acc[x]);
    }
    let next = acc.push(q[0]);
    assert(add_query(acc, first) == next);
    if q.len() == 1 {
        assert(render_queries(q) == first);
        lemma_find_single_none(first, '&', 0);
        assert(acc + q =~= next);
    } else {
        lemma_render_front(q);
        let r = render_queries(q);
        let rest = q.skip(1);
        assert(r[first.len() as int] == '&');
        assert forall|k: int| 0 <= k < first.len() implies r[k] != '&' by {
            assert(r[k] == first[k]);
        }
        lemma_find_single(r, '&', 0, first.len() as int);
        assert(r.take(first.len() as int) =~= first);
        assert(r.skip(first.len() as int + 1) =~= render_queries(rest));
        assert(next + rest =~= acc + q);
        assert forall|i: int| 0 <= i < rest.len() implies plain_pair(#[trigger] rest[i]) by {
            assert(rest[i] == q[i + 1]);
        }
        lemma_pairs_from_render(next, rest);
    }
}

/// A target whose path holds no `%` and no `?`, and whose query pairs have distinct
/// names and hold no `%` or `&` (nor `=` in a name), parses back from its text to the
/// same path and the same query pairs in the same order.
pub proof fn lemma_target_round_trip(path: Seq<char>, q: Pairs)
    requires
        free_of(path, '%'),
        free_of(path, '?'),
        crate::fields::unique_keys(q),
        forall|i: int| 0 <= i < q.len() ==> plain_pair(#[trigger] q[i]),
    ensures
        target_path_of(render_target(path, q)) == path,
        parse_queries(target_query_of(render_target(path, q))) == q,
{
    let t = render_target(path, q);
    assert forall|i: int| 0 <= i < q.len() implies free_of(#[trigger] q[i].0, '%') && free_of(
        q[i].1,
        '%',
    ) by {
        assert(plain_pair(q[i]));
    }
    lemma_render_free(q, '%');
    assert(free_of(t, '%')) by {
        assert forall|i: int| 0 <= i < t.len() implies t[i] != '%' by {
            if i < path.len() {
                assert(t[i] == path[i]);
            } else if i > path.len() {
                assert(t[i] == render_queries(q)[i - path.len() - 1]);
            }
        }
    }
    lemma_decode_plain(t);
    if q.len() == 0 {
        assert(t =~= path);
        lemma_find_single_none(path, '?', 0);
        assert(split_once(path, seq!['?']) is None);
        assert(target_query_of(t) == Seq::<char>::empty());
        lemma_find_single_none(Seq::<char>::empty(), '&', 0);
        lemma_find_single_none(Seq::<char>::empty(), '=', 0);
    } else {
        assert(t[path.len() as int] == '?');
        assert forall|k: int| 0 <= k < path.len() implies t[k] != '?' by {
            assert(t[k] == path[k]);
        }
        lemma_find_single(t, '?', 0, path.len() as int);
        assert(t.take(path.len() as int) =~= path);
        assert(t.skip(path.len() as int + 1) =~= render_queries(q));
        assert(Seq::<(Seq<char>, Seq<char>)>::empty() + q =~= q);
        lemma_pairs_from_render(Seq::empty(), q);
    }
}

} // verus!
