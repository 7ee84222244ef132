use vstd::prelude::*;

use crate::text::{chars_of, is_digit, parse_uint, parse_uint_chars, slice_chars, split, split_chars, starts_with, string_of, trim, trim_chars};
use crate::types::{HeadersView, header_get, header_set, header_value, headers_view, put_pair};

verus! {

// ---------------------------------------------------------------------------
// Paths: an optional protocol prefix, a base name, then parameters
// ---------------------------------------------------------------------------

/// Whether the path starts with `/h1/`, `/h2/` or `/h3/`.
pub open spec fn has_proto_prefix(p: Seq<char>) -> bool {
    p.len() >= 4 && p[0] == '/' && p[1] == 'h' && ('1' <= p[2] && p[2] <= '3') && p[3] == '/'
}

/// The protocol prefix of a path (`/h1`, `/h2`, `/h3`), or nothing.
pub open spec fn proto_prefix(p: Seq<char>) -> Seq<char> {
    if has_proto_prefix(p) {
        p.subrange(0, 3)
    } else {
        Seq::empty()
    }
}

/// The path without its protocol prefix.
pub open spec fn unprefixed(p: Seq<char>) -> Seq<char> {
    p.subrange(proto_prefix(p).len() as int, p.len() as int)
}

/// What follows `/<base>/` in the unprefixed path.
pub open spec fn after_base(p: Seq<char>, base: Seq<char>) -> Option<Seq<char>> {
    let u = unprefixed(p);
    let head = seq!['/'] + base + seq!['/'];
    if head.len() <= u.len() && u.subrange(0, head.len() as int) == head {
        Some(u.subrange(head.len() as int, u.len() as int))
    } else {
        None
    }
}

/// The length of the leading run of `s` that holds none of `stops`.
pub open spec fn span_len(s: Seq<char>, stops: Seq<char>) -> nat
    decreases s.len(),
{
    if s.len() > 0 && !stops.contains(s[0]) {
        1 + span_len(s.drop_first(), stops)
    } else {
        0
    }
}

/// The length of the leading run of decimal digits.
pub open spec fn digits_len(s: Seq<char>) -> nat
    decreases s.len(),
{
    if s.len() > 0 && is_digit(s[0]) {
        1 + digits_len(s.drop_first())
    } else {
        0
    }
}

/// A numeric parameter: the digits right after `/<base>/`, if any, read as
/// a number no larger than `max`.
pub open spec fn num_param(p: Seq<char>, base: Seq<char>, max: nat) -> Option<nat> {
    match after_base(p, base) {
        Some(rest) => {
            let d = rest.subrange(0, digits_len(rest) as int);
            if d.len() > 0 {
                parse_uint(d, max)
            } else {
                None
            }
        },
        None => None,
    }
}

/// The run of decimal digits right after `/<base>/`, if not empty.
pub open spec fn digits_param(p: Seq<char>, base: Seq<char>) -> Option<Seq<char>> {
    match after_base(p, base) {
        Some(rest) => {
            let d = rest.subrange(0, digits_len(rest) as int);
            if d.len() > 0 {
                Some(d)
            } else {
                None
            }
        },
        None => None,
    }
}

/// `k` parameters after `/<base>/`: each but the last runs up to the next
/// `/`, which must follow; the last runs up to a `/` or `?`. None is empty.
pub open spec fn segments(s: Seq<char>, k: nat) -> Option<Seq<Seq<char>>>
    decreases k,
{
    if k <= 1 {
        let n = span_len(s, seq!['/', '?']);
        if n > 0 {
            Some(seq![s.subrange(0, n as int)])
        } else {
            None
        }
    } else {
        let n = span_len(s, seq!['/']);
        if n > 0 && n < s.len() && s[n as int] == '/' {
            match segments(s.subrange(n + 1int, s.len() as int), (k - 1) as nat) {
                Some(r) => Some(seq![s.subrange(0, n as int)] + r),
                None => None,
            }
        } else {
            None
        }
    }
}

/// The `k` parameters of a path after `/<base>/`.
pub open spec fn path_params(p: Seq<char>, base: Seq<char>, k: nat) -> Option<Seq<Seq<char>>> {
    match after_base(p, base) {
        Some(rest) => segments(rest, k),
        None => None,
    }
}

/// The rest of the line after `/<base>/`, if not empty.
pub open spec fn tail_param(p: Seq<char>, base: Seq<char>) -> Option<Seq<char>> {
    match after_base(p, base) {
        Some(rest) => {
            let n = span_len(rest, seq!['\n']);
            if n > 0 {
                Some(rest.subrange(0, n as int))
            } else {
                None
            }
        },
        None => None,
    }
}

pub fn proto_prefix_len(p: &[char]) -> (r: usize)
    ensures
        r == proto_prefix(p@).len(),
{
    if p.len() >= 4 && p[0] == '/' && p[1] == 'h' && ('1' <= p[2] && p[2] <= '3') && p[3] == '/' {
        3
    } else {
        0
    }
}

/// The protocol prefix of a path.
pub fn protocol_prefix(path: &str) -> (r: String)
    ensures
        r@ == proto_prefix(path@),
{
    let p = chars_of(path);
    let n = proto_prefix_len(p.as_slice());
    let pre = slice_chars(p.as_slice(), 0, n);
    string_of(pre.as_slice())
}

/// What follows `/<base>/` in the path without its protocol prefix.
pub fn rest_after_base(p: &[char], base: &str) -> (r: Option<Vec<char>>)
    ensures
        match after_base(p@, base@) {
            Some(v) => r.is_some() && r.unwrap()@ == v,
            None => r.is_none(),
        },
{
    let n = proto_prefix_len(p);
    let u = slice_chars(p, n, p.len());
    let mut head: Vec<char> = Vec::new();
    head.push('/');
    let b = chars_of(base);
    crate::text::push_all(&mut head, b.as_slice());
    head.push('/');
    assert(head@ =~= seq!['/'] + base@ + seq!['/']);
    if starts_with(u.as_slice(), head.as_slice()) {
        Some(slice_chars(u.as_slice(), head.len(), u.len()))
    } else {
        None
    }
}

pub proof fn lemma_span_len(s: Seq<char>, stops: Seq<char>, i: int)
    requires
        0 <= i <= s.len(),
        forall|j: int| 0 <= j < i ==> !stops.contains(#[trigger] s[j]),
        i == s.len() || stops.contains(s[i]),
    ensures
        span_len(s, stops) == i,
    decreases i,
{
    if i > 0 {
        lemma_span_len(s.drop_first(), stops, i - 1);
    }
}

/// A run free of `stops` ends before any occurrence of one of them.
pub proof fn lemma_span_stops_at(s: Seq<char>, stops: Seq<char>, c: char)
    requires
        stops.contains(c),
        s.contains(c),
    ensures
        span_len(s, stops) < s.len(),
    decreases s.len(),
{
    if s.len() > 0 && !stops.contains(s[0]) {
        let i = choose|i: int| 0 <= i < s.len() && s[i] == c;
        assert(s.drop_first()[i - 1] == c);
        lemma_span_stops_at(s.drop_first(), stops, c);
    }
}

proof fn lemma_digits_len(s: Seq<char>, i: int)
    requires
        0 <= i <= s.len(),
        forall|j: int| 0 <= j < i ==> is_digit(#[trigger] s[j]),
        i == s.len() || !is_digit(s[i]),
    ensures
        digits_len(s) == i,
    decreases i,
{
    if i > 0 {
        lemma_digits_len(s.drop_first(), i - 1);
    }
}

/// The length of the leading run of `s` that holds none of `stops`.
pub fn span(s: &[char], stops: &[char]) -> (r: usize)
    ensures
        r == span_len(s@, stops@),
        r <= s@.len(),
{
    let mut i: usize = 0;
    while i < s.len() && !crate::text::contains_char(stops, s[i])
        invariant
            i <= s@.len(),
            forall|j: int| 0 <= j < i ==> !stops@.contains(#[trigger] s@[j]),
        decreases s@.len() - i,
    {
        i = i + 1;
    }
    proof {
        lemma_span_len(s@, stops@, i as int);
    }
    i
}

pub fn digit_run(s: &[char]) -> (r: usize)
    ensures
        r == digits_len(s@),
        r <= s@.len(),
{
    let mut i: usize = 0;
    while i < s.len() && '0' <= s[i] && s[i] <= '9'
        invariant
            i <= s@.len(),
            forall|j: int| 0 <= j < i ==> is_digit(#[trigger] s@[j]),
        decreases s@.len() - i,
    {
        i = i + 1;
    }
    proof {
        lemma_digits_len(s@, i as int);
    }
    i
}

/// A numeric path parameter after `/<base>/`, no larger than `max`.
pub fn path_number(path: &str, base: &str, max: u64) -> (r: Option<u64>)
    ensures
        match num_param(path@, base@, max as nat) {
            Some(v) => r == Some(v as u64),
            None => r.is_none(),
        },
{
    let p = chars_of(path);
    match rest_after_base(p.as_slice(), base) {
        Some(rest) => {
            let n = digit_run(rest.as_slice());
            if n == 0 {
                return None;
            }
            let d = slice_chars(rest.as_slice(), 0, n);
            parse_uint_chars(d.as_slice(), max)
        },
        None => None,
    }
}

/// The run of decimal digits right after `/<base>/`, if not empty.
pub fn path_digits(path: &str, base: &str) -> (r: Option<Vec<char>>)
    ensures
        match digits_param(path@, base@) {
            Some(d) => r.is_some() && r.unwrap()@ == d,
            None => r.is_none(),
        },
{
    let p = chars_of(path);
    match rest_after_base(p.as_slice(), base) {
        Some(rest) => {
            let n = digit_run(rest.as_slice());
            if n == 0 {
                return None;
            }
            Some(slice_chars(rest.as_slice(), 0, n))
        },
        None => None,
    }
}

/// Splits `k` parameters off a character sequence.
pub fn split_segments(s: &[char], k: usize) -> (r: Option<Vec<String>>)
    requires
        k >= 1,
    ensures
        match segments(s@, k as nat) {
            Some(v) => r.is_some() && r.unwrap()@.len() == v.len() && forall|i: int|
                0 <= i < v.len() ==> (#[trigger] r.unwrap()@[i])@ == v[i],
            None => r.is_none(),
        },
        r.is_some() ==> r.unwrap()@.len() == k,
    decreases k,
{
    if k <= 1 {
        let stops = vec!['/', '?'];
        assert(stops@ =~= seq!['/', '?']);
        let n = span(s, stops.as_slice());
        if n > 0 {
            let seg = slice_chars(s, 0, n);
            let mut out: Vec<String> = Vec::new();
            out.push(string_of(seg.as_slice()));
            Some(out)
        } else {
            None
        }
    } else {
        let stops = vec!['/'];
        assert(stops@ =~= seq!['/']);
        let n = span(s, stops.as_slice());
        if n > 0 && n < s.len() && s[n] == '/' {
            let rest = slice_chars(s, n + 1, s.len());
            match split_segments(rest.as_slice(), k - 1) {
                Some(tail) => {
                    let seg = slice_chars(s, 0, n);
                    let mut out: Vec<String> = Vec::new();
                    out.push(string_of(seg.as_slice()));
                    let mut i: usize = 0;
                    let ghost v = segments(rest@, (k - 1) as nat).unwrap();
                    while i < tail.len()
                        invariant
                            i <= tail@.len(),
                            tail@.len() == v.len(),
                            forall|j: int| 0 <= j < v.len() ==> (#[trigger] tail@[j])@ == v[j],
                            out@.len() == i + 1,
                            out@[0]@ == s@.subrange(0, n as int),
                            forall|j: int| 0 <= j < i ==> (#[trigger] out@[j + 1])@ == v[j],
                        decreases tail@.len() - i,
                    {
                        out.push(tail[i].clone());
                        i = i + 1;
                    }
                    let ghost w = seq![s@.subrange(0, n as int)] + v;
                    assert forall|j: int| 0 <= j < w.len() implies (#[trigger] out@[j])@ == w[j] by {
                        if j > 0 {
                            assert(out@[(j - 1) + 1]@ == v[j - 1]);
                        }
                    }
                    Some(out)
                },
                None => None,
            }
        } else {
            None
        }
    }
}

/// The `k` parameters of a path after `/<base>/`.
pub fn path_segments(path: &str, base: &str, k: usize) -> (r: Option<Vec<String>>)
    requires
        k >= 1,
    ensures
        match path_params(path@, base@, k as nat) {
            Some(v) => r.is_some() && r.unwrap()@.len() == v.len() && forall|i: int|
                0 <= i < v.len() ==> (#[trigger] r.unwrap()@[i])@ == v[i],
            None => r.is_none(),
        },
        r.is_some() ==> r.unwrap()@.len() == k,
{
    let p = chars_of(path);
    match rest_after_base(p.as_slice(), base) {
        Some(rest) => split_segments(rest.as_slice(), k),
        None => None,
    }
}

/// The rest of the line after `/<base>/`, if not empty.
pub fn path_tail(path: &str, base: &str) -> (r: Option<String>)
    ensures
        match tail_param(path@, base@) {
            Some(v) => r.is_some() && r.unwrap()@ == v,
            None => r.is_none(),
        },
{
    let p = chars_of(path);
    match rest_after_base(p.as_slice(), base) {
        Some(rest) => {
            let stops = vec!['\n'];
            assert(stops@ =~= seq!['\n']);
            let n = span(rest.as_slice(), stops.as_slice());
            if n > 0 {
                let t = slice_chars(rest.as_slice(), 0, n);
                Some(string_of(t.as_slice()))
            } else {
                None
            }
        },
        None => None,
    }
}

// ---------------------------------------------------------------------------
// Query strings
// ---------------------------------------------------------------------------

/// The query of a path: what lies between its first `?` and the next one.
pub open spec fn query_of(p: Seq<char>) -> Seq<char> {
    let parts = split(p, '?');
    if parts.len() > 1 {
        parts[1]
    } else {
        Seq::empty()
    }
}

/// A `key=value` pair split at its first `=`; without one the value is empty.
pub open spec fn query_pair(piece: Seq<char>) -> (Seq<char>, Seq<char>) {
    let k = span_len(piece, seq!['=']);
    if k < piece.len() {
        (piece.subrange(0, k as int), piece.subrange(k + 1int, piece.len() as int))
    } else {
        (piece, Seq::empty())
    }
}

/// The pairs of a sequence of pieces; a later value for a key replaces an
/// earlier one, which keeps its place.
pub open spec fn query_pairs(pieces: Seq<Seq<char>>) -> HeadersView
    decreases pieces.len(),
{
    if pieces.len() == 0 {
        Seq::empty()
    } else {
        let kv = query_pair(pieces.last());
        header_set(query_pairs(pieces.drop_last()), kv.0, kv.1)
    }
}

/// The parameters of a query string, split on `&`.
pub open spec fn query_map(q: Seq<char>) -> HeadersView {
    if q.len() == 0 {
        Seq::empty()
    } else {
        query_pairs(split(q, '&'))
    }
}

/// The value of the first pair with exactly the given name.
pub open spec fn query_lookup(m: HeadersView, key: Seq<char>) -> Option<Seq<char>>
    decreases m.len(),
{
    if m.len() == 0 {
        None
    } else if m[0].0 == key {
        Some(m[0].1)
    } else {
        query_lookup(m.drop_first(), key)
    }
}

/// The query part of a path.
pub fn query_part(path: &str) -> (r: String)
    ensures
        r@ == query_of(path@),
{
    let p = chars_of(path);
    let parts = split_chars(p.as_slice(), '?');
    if parts.len() > 1 {
        string_of(parts[1].as_slice())
    } else {
        String::new()
    }
}

fn split_pair(piece: &[char]) -> (r: (String, String))
    ensures
        r.0@ == query_pair(piece@).0,
        r.1@ == query_pair(piece@).1,
{
    let stops = vec!['='];
    assert(stops@ =~= seq!['=']);
    let k = span(piece, stops.as_slice());
    if k < piece.len() {
        let key = slice_chars(piece, 0, k);
        let value = slice_chars(piece, k + 1, piece.len());
        (string_of(key.as_slice()), string_of(value.as_slice()))
    } else {
        assert(piece@.subrange(0, piece@.len() as int) =~= piece@);
        (string_of(piece), String::new())
    }
}

/// Parses a query string into its parameters, keys unique: split on `&`,
/// each piece at its first `=`; a missing value is empty; the last value of a
/// repeated key wins.
pub fn parse_query(query: &str) -> (r: Vec<(String, String)>)
    ensures
        headers_view(r@) == query_map(query@),
{
    let mut r: Vec<(String, String)> = Vec::new();
    let q = chars_of(query);
    if q.len() == 0 {
        assert(headers_view(r@) =~= query_map(query@));
        return r;
    }
    let pieces = split_chars(q.as_slice(), '&');
    let ghost ps = split(q@, '&');
    let mut i: usize = 0;
    assert(headers_view(r@) =~= query_pairs(ps.subrange(0, 0)));
    while i < pieces.len()
        invariant
            i <= pieces@.len(),
            pieces@.len() == ps.len(),
            forall|j: int| 0 <= j < ps.len() ==> (#[trigger] pieces@[j])@ == ps[j],
            headers_view(r@) == query_pairs(ps.subrange(0, i as int)),
        decreases pieces@.len() - i,
    {
        let (k, v) = split_pair(pieces[i].as_slice());
        put_pair(&mut r, k, v);
        assert(ps.subrange(0, i + 1).drop_last() =~= ps.subrange(0, i as int));
        i = i + 1;
    }
    assert(ps.subrange(0, ps.len() as int) =~= ps);
    r
}

/// The value of the first pair with exactly the given name.
pub fn query_value(pairs: &Vec<(String, String)>, key: &str) -> (r: Option<String>)
    ensures
        crate::types::opt_view(r) == query_lookup(headers_view(pairs@), key@),
{
    let want = String::from_str(key);
    let ghost m = headers_view(pairs@);
    assert(m.subrange(0, m.len() as int) =~= m);
    let mut i: usize = 0;
    while i < pairs.len()
        invariant
            i <= pairs@.len(),
            want@ == key@,
            m == headers_view(pairs@),
            query_lookup(m, key@) == query_lookup(m.subrange(i as int, m.len() as int), key@),
        decreases pairs@.len() - i,
    {
        let ghost rest = m.subrange(i as int, m.len() as int);
        assert(rest.drop_first() =~= m.subrange(i + 1, m.len() as int));
        assert(rest[0] == m[i as int]);
        if pairs[i].0 == want {
            return Some(pairs[i].1.clone());
        }
        i = i + 1;
    }
    None
}

// ---------------------------------------------------------------------------
// Client address
// ---------------------------------------------------------------------------

/// The client address: the first comma-separated entry, trimmed, of
/// `X-Forwarded-For`, or else of `X-Real-IP`.
pub open spec fn client_ip(hs: HeadersView) -> Option<Seq<char>> {
    let v = match header_get(hs, "X-Forwarded-For"@) {
        Some(v) => Some(v),
        None => header_get(hs, "X-Real-IP"@),
    };
    match v {
        Some(v) => Some(trim(split(v, ',')[0])),
        None => None,
    }
}

/// The client address given by the proxy headers, if any.
pub fn get_client_ip(headers: &Vec<(String, String)>) -> (r: Option<String>)
    ensures
        crate::types::opt_view(r) == client_ip(headers_view(headers@)),
{
    let v = match header_value(headers, "X-Forwarded-For") {
        Some(v) => Some(v),
        None => header_value(headers, "X-Real-IP"),
    };
    match v {
        Some(v) => {
            let cs = chars_of(v.as_str());
            let parts = split_chars(cs.as_slice(), ',');
            proof {
                crate::text::lemma_split_nonempty(cs@, ',');
            }
            let first = trim_chars(parts[0].as_slice());
            Some(string_of(first.as_slice()))
        },
        None => None,
    }
}

} // verus!
