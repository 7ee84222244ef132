use vstd::prelude::*;

use crate::bridge::{json_quoted, random_bytes};
use crate::json::{json_map, json_object, json_object_text, json_string, json_text_map};
use crate::params::{after_base, digit_run, digits_len, digits_param, lemma_span_stops_at, num_param, parse_query, path_digits, path_number, query_lookup, query_map, query_of, query_part, query_value, rest_after_base, span, span_len};
use crate::text::{chars_of, decimal, has_prefix, parse_uint, parse_uint_chars, push_all, push_decimal, push_str, slice_chars, starts_with, string_of, utf8, utf8_bytes};
use crate::types::{Request, RequestView, Response, ResponseView, header_get, header_value};

verus! {

/// The largest value of a 64-bit unsigned number.
pub const U64_MAX: u64 = 0xFFFF_FFFF_FFFF_FFFF;

/// The most bytes the byte endpoints produce.
pub const MAX_BYTES: u64 = 102400;

/// The most lines the JSON stream endpoint produces.
pub const MAX_LINES: u64 = 100;

/// The most links a links page holds.
pub const MAX_LINKS: u64 = 200;

pub open spec fn min(a: nat, b: nat) -> nat {
    if a <= b {
        a
    } else {
        b
    }
}

/// The URL echoed back for a path.
pub open spec fn echo_url(path: Seq<char>) -> Seq<char> {
    "https://httpbin.org"@ + path
}

/// A numeric path parameter, or a default when it is missing or too large.
pub open spec fn num_or(p: Seq<char>, base: Seq<char>, max: nat, default: nat) -> nat {
    match num_param(p, base, max) {
        Some(v) => v,
        None => default,
    }
}

/// A count after `/<base>/`: `default` when no digits follow, otherwise
/// their value, saturating at `cap` however many digits there are.
pub open spec fn capped_count(p: Seq<char>, base: Seq<char>, default: nat, cap: nat) -> nat {
    match digits_param(p, base) {
        None => default,
        Some(d) => match parse_uint(d, cap) {
            Some(v) => v,
            None => cap,
        },
    }
}

/// The byte count asked of `/<base>/<n>`: 1024 by default, at most 102400.
pub open spec fn byte_count(p: Seq<char>, base: Seq<char>) -> nat {
    capped_count(p, base, 1024, MAX_BYTES as nat)
}

/// A count after `/<base>/`, `default` when missing, saturating at `cap`.
pub fn path_count(path: &str, base: &str, default: u64, cap: u64) -> (r: u64)
    ensures
        r as nat == capped_count(path@, base@, default as nat, cap as nat),
{
    match path_digits(path, base) {
        None => default,
        Some(d) => match parse_uint_chars(d.as_slice(), cap) {
            Some(v) => v,
            None => cap,
        },
    }
}

/// An octet-stream response with the given bytes.
pub open spec fn bytes_view(data: Seq<u8>) -> ResponseView {
    ResponseView {
        status: 200,
        headers: seq![("Content-Type"@, "application/octet-stream"@)],
        body: data,
    }
}

/// A numeric path parameter or a default.
pub fn path_number_or(path: &str, base: &str, max: u64, default: u64) -> (r: u64)
    ensures
        r as nat == num_or(path@, base@, max as nat, default as nat),
{
    match path_number(path, base, max) {
        Some(v) => v,
        None => default,
    }
}

/// The random bytes endpoint's answer for the given bytes.
pub fn bytes_response(data: Vec<u8>) -> (r: Response)
    ensures
        r@ == bytes_view(data@),
{
    let mut headers: Vec<(String, String)> = Vec::new();
    headers.push((String::from_str("Content-Type"), String::from_str("application/octet-stream")));
    let r = Response { status: 200, headers, body: data };
    assert(r@.headers =~= seq![("Content-Type"@, "application/octet-stream"@)]);
    r
}

fn random_of(path: &str, base: &str) -> (r: Response)
    ensures
        r@ == bytes_view(r@.body),
        r@.body.len() == byte_count(path@, base@),
{
    let n = path_count(path, base, 1024, MAX_BYTES);
    bytes_response(random_bytes(n as usize))
}

/// `/bytes/<n>`: `n` random bytes (1024 by default, at most 102400).
pub fn bytes_handler(req: &Request) -> (r: Response)
    ensures
        r@ == bytes_view(r@.body),
        r@.body.len() == byte_count(req@.path, "bytes"@),
{
    random_of(req.path.as_str(), "bytes")
}

/// `/stream-bytes/<n>`: the same bytes as `/bytes/<n>`, in one body.
pub fn stream_bytes_handler(req: &Request) -> (r: Response)
    ensures
        r@ == bytes_view(r@.body),
        r@.body.len() == byte_count(req@.path, "stream-bytes"@),
{
    random_of(req.path.as_str(), "stream-bytes")
}

/// The byte count of `/drip`: its `numbytes` query parameter, 10 by default.
pub open spec fn drip_count(path: Seq<char>) -> nat {
    match query_lookup(query_map(query_of(path)), "numbytes"@) {
        Some(v) => match parse_uint(v, usize::MAX as nat) {
            Some(n) => n,
            None => 10,
        },
        None => 10,
    }
}

/// `/drip`: `numbytes` random bytes, delivered at once.
pub fn drip_handler(req: &Request) -> (r: Response)
    ensures
        r@ == bytes_view(r@.body),
        r@.body.len() == drip_count(req@.path),
{
    let q = query_part(req.path.as_str());
    let pairs = parse_query(q.as_str());
    let n: u64 = match query_value(&pairs, "numbytes") {
        Some(v) => {
            let cs = chars_of(v.as_str());
            match parse_uint_chars(cs.as_slice(), usize::MAX as u64) {
                Some(n) => n,
                None => 10,
            }
        },
        None => 10,
    };
    bytes_response(random_bytes(n as usize))
}

// ---------------------------------------------------------------------------
// Ranges
// ---------------------------------------------------------------------------

/// The satisfiable byte range that a `Range` header asks of `n` bytes:
/// `bytes=<start>-<end>`, an unreadable start read as 0, a missing end as
/// the last byte, an end past the last byte cut to it; satisfiable when the
/// start lies in the data and is no later than the end.
pub open spec fn byte_range(h: Seq<char>, n: nat) -> Option<(nat, nat)> {
    if !has_prefix(h, "bytes="@) || n == 0 {
        None
    } else {
        let r = h.subrange("bytes="@.len() as int, h.len() as int);
        if !r.contains('-') {
            None
        } else {
            let k = span_len(r, seq!['-']);
            let start = match parse_uint(r.subrange(0, k as int), U64_MAX as nat) {
                Some(v) => v,
                None => 0,
            };
            let e = r.subrange(k + 1int, r.len() as int);
            let end = if e.len() == 0 {
                (n - 1) as nat
            } else {
                match parse_uint(e, U64_MAX as nat) {
                    Some(v) => min(v, (n - 1) as nat),
                    None => (n - 1) as nat,
                }
            };
            if start < n && start <= end {
                Some((start, end))
            } else {
                None
            }
        }
    }
}

/// `bytes <start>-<end>/<total>`
pub open spec fn content_range(start: nat, end: nat, total: nat) -> Seq<char> {
    "bytes "@ + decimal(start) + seq!['-'] + decimal(end) + seq!['/'] + decimal(total)
}

/// What `/range/<n>` answers for the given data: the asked part with 206, or
/// all of it with 200.
pub open spec fn range_view(req: RequestView, data: Seq<u8>) -> ResponseView {
    let asked = match header_get(req.headers, "Range"@) {
        Some(h) => byte_range(h, data.len()),
        None => None,
    };
    match asked {
        Some((s, e)) => ResponseView {
            status: 206,
            headers: seq![
                ("Content-Range"@, content_range(s, e, data.len())),
                ("Content-Type"@, "application/octet-stream"@),
            ],
            body: data.subrange(s as int, e + 1int),
        },
        None => ResponseView {
            status: 200,
            headers: seq![
                ("Content-Type"@, "application/octet-stream"@),
                ("Accept-Ranges"@, "bytes"@),
            ],
            body: data,
        },
    }
}

/// The range a `Range` header asks of `n` bytes.
pub fn parse_byte_range(h: &str, n: u64) -> (r: Option<(u64, u64)>)
    ensures
        match byte_range(h@, n as nat) {
            Some((s, e)) => r == Some((s as u64, e as u64)),
            None => r.is_none(),
        },
{
    let hc = chars_of(h);
    let p = chars_of("bytes=");
    if !starts_with(hc.as_slice(), p.as_slice()) || n == 0 {
        return None;
    }
    let rest = slice_chars(hc.as_slice(), p.len(), hc.len());
    if !crate::text::contains_char(rest.as_slice(), '-') {
        return None;
    }
    let stops = vec!['-'];
    assert(stops@ =~= seq!['-']);
    let k = span(rest.as_slice(), stops.as_slice());
    proof {
        assert(stops@[0] == '-');
        lemma_span_stops_at(rest@, stops@, '-');
    }
    let s_part = slice_chars(rest.as_slice(), 0, k);
    let start: u64 = match parse_uint_chars(s_part.as_slice(), U64_MAX) {
        Some(v) => v,
        None => 0,
    };
    let rl = rest.len();
    let e_part = slice_chars(rest.as_slice(), k + 1, rl);
    let end: u64 = if e_part.len() == 0 {
        n - 1
    } else {
        match parse_uint_chars(e_part.as_slice(), U64_MAX) {
            Some(v) => if v <= n - 1 {
                v
            } else {
                n - 1
            },
            None => n - 1,
        }
    };
    if start < n && start <= end {
        Some((start, end))
    } else {
        None
    }
}

/// `/range/<n>`'s answer for the given data.
pub fn range_response(req: &Request, data: Vec<u8>) -> (r: Response)
    requires
        data@.len() <= U64_MAX,
    ensures
        r@ == range_view(req@, data@),
{
    let n = data.len() as u64;
    let asked = match header_value(&req.headers, "Range") {
        Some(h) => parse_byte_range(h.as_str(), n),
        None => None,
    };
    match asked {
        Some((s, e)) => {
            let body = crate::text::slice_bytes(data.as_slice(), s as usize, (e + 1) as usize);
            let mut cr: Vec<char> = Vec::new();
            push_str(&mut cr, "bytes ");
            push_decimal(&mut cr, s);
            cr.push('-');
            push_decimal(&mut cr, e);
            cr.push('/');
            push_decimal(&mut cr, n);
            assert(cr@ =~= content_range(s as nat, e as nat, n as nat));
            let mut headers: Vec<(String, String)> = Vec::new();
            headers.push((String::from_str("Content-Range"), string_of(cr.as_slice())));
            headers.push(
                (String::from_str("Content-Type"), String::from_str("application/octet-stream")),
            );
            let r = Response { status: 206, headers, body };
            assert(r@.headers =~= range_view(req@, data@).headers);
            r
        },
        None => {
            let mut headers: Vec<(String, String)> = Vec::new();
            headers.push(
                (String::from_str("Content-Type"), String::from_str("application/octet-stream")),
            );
            headers.push((String::from_str("Accept-Ranges"), String::from_str("bytes")));
            let r = Response { status: 200, headers, body: data };
            assert(r@.headers =~= range_view(req@, data@).headers);
            r
        },
    }
}

/// `/range/<n>`: `n` random bytes (1024 by default, at most 102400); a
/// satisfiable `Range: bytes=start-end` gets 206 with that slice.
pub fn range_handler(req: &Request) -> (r: Response)
    ensures
        exists|data: Seq<u8>|
            data.len() == byte_count(req@.path, "range"@) && r@ == range_view(req@, data),
{
    let n = path_count(req.path.as_str(), "range", 1024, MAX_BYTES);
    let data = random_bytes(n as usize);
    let ghost d = data@;
    let r = range_response(req, data);
    assert(d.len() == byte_count(req@.path, "range"@) && r@ == range_view(req@, d));
    r
}

// ---------------------------------------------------------------------------
// JSON lines
// ---------------------------------------------------------------------------

/// One line of `/stream/<n>`.
pub open spec fn stream_line(req: RequestView, i: nat) -> Seq<char> {
    json_object(
        seq![
            ("headers"@, json_text_map(req.headers)),
            ("id"@, decimal(i)),
            ("url"@, json_quoted(echo_url(req.path))),
        ],
    )
}

/// The first `n` lines, joined by newlines.
pub open spec fn stream_text(req: RequestView, n: nat) -> Seq<char>
    decreases n,
{
    if n == 0 {
        Seq::empty()
    } else if n == 1 {
        stream_line(req, 0)
    } else {
        stream_text(req, (n - 1) as nat) + seq!['\n'] + stream_line(req, (n - 1) as nat)
    }
}

/// The line count of `/stream/<n>`: 10 by default, saturating at 100.
pub open spec fn stream_count(path: Seq<char>) -> nat {
    capped_count(path, "stream"@, 10, MAX_LINES as nat)
}

pub open spec fn stream_view(req: RequestView) -> ResponseView {
    ResponseView {
        status: 200,
        headers: seq![("Content-Type"@, "application/json"@)],
        body: utf8(stream_text(req, stream_count(req.path))),
    }
}

/// `/stream/<n>`: `n` JSON objects (index, URL, headers), one per line.
pub fn stream_handler(req: &Request) -> (r: Response)
    ensures
        r@ == stream_view(req@),
{
    let n = path_count(req.path.as_str(), "stream", 10, MAX_LINES);
    let hs = json_map(&req.headers);
    let mut url: Vec<char> = Vec::new();
    push_str(&mut url, "https://httpbin.org");
    push_str(&mut url, req.path.as_str());
    let url = string_of(url.as_slice());
    let url_json = json_string(url.as_str());
    let mut out: Vec<char> = Vec::new();
    let mut i: u64 = 0;
    while i < n
        invariant
            i <= n <= MAX_LINES,
            hs@ == json_text_map(req@.headers),
            url_json@ == json_quoted(echo_url(req@.path)),
            out@ == stream_text(req@, i as nat),
        decreases n - i,
    {
        if i > 0 {
            out.push('\n');
        }
        let mut es: Vec<(String, Vec<char>)> = Vec::new();
        es.push((String::from_str("headers"), hs.clone()));
        let mut id: Vec<char> = Vec::new();
        push_decimal(&mut id, i);
        assert(id@ =~= decimal(i as nat));
        es.push((String::from_str("id"), id));
        es.push((String::from_str("url"), url_json.clone()));
        assert(es@.map_values(|e: (String, Vec<char>)| (e.0@, e.1@)) =~= seq![
            ("headers"@, json_text_map(req@.headers)),
            ("id"@, decimal(i as nat)),
            ("url"@, json_quoted(echo_url(req@.path))),
        ]);
        let line = json_object_text(&es);
        push_all(&mut out, line.as_slice());
        assert(out@ =~= stream_text(req@, (i + 1) as nat));
        i = i + 1;
    }
    let mut headers: Vec<(String, String)> = Vec::new();
    headers.push((String::from_str("Content-Type"), String::from_str("application/json")));
    let r = Response { status: 200, headers, body: utf8_bytes(out.as_slice()) };
    assert(r@.headers =~= stream_view(req@).headers);
    r
}

// ---------------------------------------------------------------------------
// Links
// ---------------------------------------------------------------------------

/// The link count and first link number of `/links/<n>/<offset>`: the count
/// defaults to 10 and saturates at 200, however many digits it has; the
/// offset, when present, follows the count after a `/`, defaults to 0 and
/// counts as missing when the numbers it would give could not be written in
/// 64 bits.
pub open spec fn links_params(p: Seq<char>) -> (nat, nat) {
    match after_base(p, "links"@) {
        Some(rest) => {
            let k = digits_len(rest);
            if k == 0 {
                (10, 0)
            } else {
                let n = match parse_uint(rest.subrange(0, k as int), MAX_LINKS as nat) {
                    Some(v) => v,
                    None => MAX_LINKS as nat,
                };
                let more = rest.subrange(k as int, rest.len() as int);
                let off = if more.len() > 0 && more[0] == '/' {
                    let t = more.drop_first();
                    let j = digits_len(t);
                    if j > 0 {
                        match parse_uint(t.subrange(0, j as int), (U64_MAX - MAX_LINKS) as nat) {
                            Some(v) => v,
                            None => 0,
                        }
                    } else {
                        0
                    }
                } else {
                    0
                };
                (n, off)
            }
        },
        None => (10, 0),
    }
}

/// One link line.
pub open spec fn link_line(n: nat, k: nat) -> Seq<char> {
    "<a href=\"/links/"@ + decimal(n) + seq!['/'] + decimal(k) + "\">Link "@ + decimal(k)
        + "</a><br>\n"@
}

/// Links numbered `off` to `off + i - 1`.
pub open spec fn link_lines(n: nat, off: nat, i: nat) -> Seq<char>
    decreases i,
{
    if i == 0 {
        Seq::empty()
    } else {
        link_lines(n, off, (i - 1) as nat) + link_line(n, off + (i - 1) as nat)
    }
}

pub open spec fn links_page(n: nat, off: nat) -> Seq<char> {
    "<!DOCTYPE html>\n<html>\n<head><title>Links</title></head>\n<body>\n"@ + link_lines(n, off, n)
        + "</body>\n</html>"@
}

pub open spec fn links_view(req: RequestView) -> ResponseView {
    let (n, off) = links_params(req.path);
    ResponseView {
        status: 200,
        headers: seq![("Content-Type"@, "text/html; charset=utf-8"@)],
        body: utf8(links_page(n, off)),
    }
}

/// The link count and offset of a links path.
pub fn links_numbers(path: &str) -> (r: (u64, u64))
    ensures
        r.0 as nat == links_params(path@).0,
        r.1 as nat == links_params(path@).1,
{
    let p = chars_of(path);
    match rest_after_base(p.as_slice(), "links") {
        None => (10, 0),
        Some(rest) => {
            let k = digit_run(rest.as_slice());
            if k == 0 {
                return (10, 0);
            }
            let d = slice_chars(rest.as_slice(), 0, k);
            let n = match parse_uint_chars(d.as_slice(), MAX_LINKS) {
                Some(v) => v,
                None => MAX_LINKS,
            };
            let more = slice_chars(rest.as_slice(), k, rest.len());
            let off: u64 = if more.len() > 0 && more[0] == '/' {
                let t = slice_chars(more.as_slice(), 1, more.len());
                assert(t@ =~= more@.drop_first());
                let j = digit_run(t.as_slice());
                if j > 0 {
                    let td = slice_chars(t.as_slice(), 0, j);
                    match parse_uint_chars(td.as_slice(), U64_MAX - MAX_LINKS) {
                        Some(v) => v,
                        None => 0,
                    }
                } else {
                    0
                }
            } else {
                0
            };
            (n, off)
        },
    }
}

/// `/links/<n>/<offset>`: an HTML page of `n` links to `/links/<n>/<k>`,
/// numbered from the offset.
pub fn links_handler(req: &Request) -> (r: Response)
    ensures
        r@ == links_view(req@),
{
    let (n, off) = links_numbers(req.path.as_str());
    let mut html: Vec<char> = Vec::new();
    push_str(&mut html, "<!DOCTYPE html>\n<html>\n<head><title>Links</title></head>\n<body>\n");
    let ghost head = html@;
    let mut i: u64 = 0;
    while i < n
        invariant
            i <= n <= MAX_LINKS,
            off <= U64_MAX - MAX_LINKS,
            head == "<!DOCTYPE html>\n<html>\n<head><title>Links</title></head>\n<body>\n"@,
            html@ == head + link_lines(n as nat, off as nat, i as nat),
        decreases n - i,
    {
        let k = i + off;
        push_str(&mut html, "<a href=\"/links/");
        push_decimal(&mut html, n);
        html.push('/');
        push_decimal(&mut html, k);
        push_str(&mut html, "\">Link ");
        push_decimal(&mut html, k);
        push_str(&mut html, "</a><br>\n");
        assert(html@ =~= head + link_lines(n as nat, off as nat, (i + 1) as nat));
        i = i + 1;
    }
    push_str(&mut html, "</body>\n</html>");
    assert(html@ =~= links_page(n as nat, off as nat));
    let mut headers: Vec<(String, String)> = Vec::new();
    headers.push((String::from_str("Content-Type"), String::from_str("text/html; charset=utf-8")));
    let r = Response { status: 200, headers, body: utf8_bytes(html.as_slice()) };
    assert(r@.headers =~= links_view(req@).headers);
    r
}

} // verus!
