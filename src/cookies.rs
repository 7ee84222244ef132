use vstd::prelude::*;

use crate::auth::{bare_view, json_response, json_view, text_response, text_view};
use crate::json::{json_map, json_object, json_object_text, json_text_map};
use crate::params::{lemma_span_stops_at, parse_query, path_params, path_segments, query_map, query_of, query_pair, query_part, span};
use crate::text::{chars_of, contains_char, push_str, slice_chars, split, split_chars, string_of, trim, trim_chars};
use crate::types::{HeadersView, Request, RequestView, Response, ResponseView, header_set, header_value, headers_view, put_pair};

verus! {

/// The cookies of a `Cookie` header value: split on `;`, each piece trimmed
/// and split at its first `=`, key and value trimmed; pieces without `=` are
/// skipped and a later key replaces an earlier one.
pub open spec fn cookie_pairs(pieces: Seq<Seq<char>>) -> HeadersView
    decreases pieces.len(),
{
    if pieces.len() == 0 {
        Seq::empty()
    } else {
        let acc = cookie_pairs(pieces.drop_last());
        let t = trim(pieces.last());
        if t.contains('=') {
            let kv = query_pair(t);
            header_set(acc, trim(kv.0), trim(kv.1))
        } else {
            acc
        }
    }
}

/// The cookies a request carries.
pub open spec fn cookies_of(hs: HeadersView) -> HeadersView {
    let c = match crate::types::header_get(hs, "Cookie"@) {
        Some(c) => c,
        None => Seq::empty(),
    };
    cookie_pairs(split(c, ';'))
}

/// The cookies of a request's `Cookie` header.
pub fn parse_cookies(headers: &Vec<(String, String)>) -> (r: Vec<(String, String)>)
    ensures
        headers_view(r@) == cookies_of(headers_view(headers@)),
{
    let c = match header_value(headers, "Cookie") {
        Some(c) => c,
        None => String::new(),
    };
    let cs = chars_of(c.as_str());
    let pieces = split_chars(cs.as_slice(), ';');
    let ghost ps = split(cs@, ';');
    let mut r: Vec<(String, String)> = Vec::new();
    let mut i: usize = 0;
    assert(headers_view(r@) =~= cookie_pairs(ps.subrange(0, 0)));
    while i < pieces.len()
        invariant
            i <= pieces@.len(),
            pieces@.len() == ps.len(),
            forall|j: int| 0 <= j < ps.len() ==> (#[trigger] pieces@[j])@ == ps[j],
            headers_view(r@) == cookie_pairs(ps.subrange(0, i as int)),
        decreases pieces@.len() - i,
    {
        assert(ps.subrange(0, i + 1).drop_last() =~= ps.subrange(0, i as int));
        assert(ps.subrange(0, i + 1).last() == ps[i as int]);
        let t = trim_chars(pieces[i].as_slice());
        if contains_char(t.as_slice(), '=') {
            let stops = vec!['='];
            assert(stops@ =~= seq!['=']);
            let k = span(t.as_slice(), stops.as_slice());
            proof {
                assert(stops@[0] == '=');
                lemma_span_stops_at(t@, stops@, '=');
            }
            let tl = t.len();
            let key = slice_chars(t.as_slice(), 0, k);
            let value = slice_chars(t.as_slice(), k + 1, tl);
            let key = trim_chars(key.as_slice());
            let value = trim_chars(value.as_slice());
            put_pair(&mut r, string_of(key.as_slice()), string_of(value.as_slice()));
        }
        i = i + 1;
    }
    assert(ps.subrange(0, ps.len() as int) =~= ps);
    r
}

/// What `/cookies` answers: `{"cookies":{...}}`.
pub open spec fn cookies_view(req: RequestView) -> ResponseView {
    json_view(json_object(seq![("cookies"@, json_text_map(cookies_of(req.headers)))]))
}

/// `/cookies`.
pub fn cookies_handler(req: &Request) -> (r: Response)
    ensures
        r@ == cookies_view(req@),
{
    let cookies = parse_cookies(&req.headers);
    let mut es: Vec<(String, Vec<char>)> = Vec::new();
    es.push((String::from_str("cookies"), json_map(&cookies)));
    assert(es@.map_values(|e: (String, Vec<char>)| (e.0@, e.1@)) =~= seq![
        ("cookies"@, json_text_map(cookies_of(req@.headers))),
    ]);
    let json = json_object_text(&es);
    json_response(json.as_slice())
}

/// A 302 to `/cookies`, after a `Set-Cookie` header when one is given.
pub open spec fn to_cookies_view(cookie: Option<Seq<char>>) -> ResponseView {
    match cookie {
        Some(c) => bare_view(302, seq![("Set-Cookie"@, c), ("Location"@, "/cookies"@)]),
        None => bare_view(302, seq![("Location"@, "/cookies"@)]),
    }
}

fn to_cookies(cookie: Option<String>) -> (r: Response)
    ensures
        r@ == to_cookies_view(crate::types::opt_view(cookie)),
{
    let mut headers: Vec<(String, String)> = Vec::new();
    match cookie {
        Some(c) => {
            headers.push((String::from_str("Set-Cookie"), c));
        },
        None => {},
    }
    headers.push((String::from_str("Location"), String::from_str("/cookies")));
    let r = Response { status: 302, headers, body: Vec::new() };
    assert(r@.headers =~= to_cookies_view(crate::types::opt_view(cookie)).headers);
    assert(r@.body =~= Seq::<u8>::empty());
    r
}

/// What `/cookies/set?k=v...` answers: each parameter sets the one
/// `Set-Cookie` header in turn, so the last parameter's `k=v` stands.
pub open spec fn cookies_set_view(req: RequestView) -> ResponseView {
    let m = query_map(query_of(req.path));
    if m.len() > 0 {
        to_cookies_view(Some(m.last().0 + seq!['='] + m.last().1))
    } else {
        to_cookies_view(None)
    }
}

/// `/cookies/set?k=v...`.
pub fn cookies_set_handler(req: &Request) -> (r: Response)
    ensures
        r@ == cookies_set_view(req@),
{
    let q = query_part(req.path.as_str());
    let pairs = parse_query(q.as_str());
    if pairs.len() > 0 {
        let last = pairs.len() - 1;
        let mut c: Vec<char> = chars_of(pairs[last].0.as_str());
        c.push('=');
        push_str(&mut c, pairs[last].1.as_str());
        let ghost m = headers_view(pairs@);
        assert(m.last() == (pairs@[last as int].0@, pairs@[last as int].1@));
        assert(c@ =~= m.last().0 + seq!['='] + m.last().1);
        to_cookies(Some(string_of(c.as_slice())))
    } else {
        to_cookies(None)
    }
}

/// What `/cookies/delete?k...` answers: each named cookie is expired in
/// turn through the one `Set-Cookie` header, so the last name's stands.
pub open spec fn cookies_delete_view(req: RequestView) -> ResponseView {
    let m = query_map(query_of(req.path));
    if m.len() > 0 {
        to_cookies_view(Some(m.last().0 + "=deleted; Max-Age=0"@))
    } else {
        to_cookies_view(None)
    }
}

/// `/cookies/delete?k...`.
pub fn cookies_delete_handler(req: &Request) -> (r: Response)
    ensures
        r@ == cookies_delete_view(req@),
{
    let q = query_part(req.path.as_str());
    let pairs = parse_query(q.as_str());
    if pairs.len() > 0 {
        let last = pairs.len() - 1;
        let mut c: Vec<char> = chars_of(pairs[last].0.as_str());
        push_str(&mut c, "=deleted; Max-Age=0");
        let ghost m = headers_view(pairs@);
        assert(m.last() == (pairs@[last as int].0@, pairs@[last as int].1@));
        assert(c@ =~= m.last().0 + "=deleted; Max-Age=0"@);
        to_cookies(Some(string_of(c.as_slice())))
    } else {
        to_cookies(None)
    }
}

/// What `/cookies/set/<name>/<value>` answers.
pub open spec fn cookies_set_specific_view(req: RequestView) -> ResponseView {
    match path_params(req.path, "cookies/set"@, 2) {
        None => text_view(400, "Invalid cookie parameters"@),
        Some(ps) => to_cookies_view(Some(ps[0] + seq!['='] + ps[1])),
    }
}

/// `/cookies/set/<name>/<value>`.
pub fn cookies_set_specific_handler(req: &Request) -> (r: Response)
    ensures
        r@ == cookies_set_specific_view(req@),
{
    match path_segments(req.path.as_str(), "cookies/set", 2) {
        None => text_response(400, "Invalid cookie parameters"),
        Some(ps) => {
            let mut c: Vec<char> = chars_of(ps[0].as_str());
            c.push('=');
            push_str(&mut c, ps[1].as_str());
            assert(c@ =~= ps@[0]@ + seq!['='] + ps@[1]@);
            to_cookies(Some(string_of(c.as_slice())))
        },
    }
}

} // verus!
