use vstd::prelude::*;

use crate::auth::{bare_view, one_header_response};
use crate::bridge::json_quoted;
use crate::json::{json_map, json_object, json_object_text, json_string, json_text_map};
use crate::params::{path_tail, tail_param};
use crate::streaming::{U64_MAX, echo_url, num_or, path_number_or};
use crate::text::{chars_eq, chars_of, decimal, push_decimal, push_str, string_of, utf8, utf8_bytes};
use crate::types::{HeadersView, Request, RequestView, Response, ResponseView, header_get, header_value};

verus! {

/// `{"headers":{...},"url":"https://httpbin.org<path>"}`
pub open spec fn echo_json(req: RequestView) -> Seq<char> {
    json_object(
        seq![
            ("headers"@, json_text_map(req.headers)),
            ("url"@, json_quoted(echo_url(req.path))),
        ],
    )
}

/// A 200 response echoing headers and URL, with extra headers after the
/// content type.
pub open spec fn echo_view(req: RequestView, extra: HeadersView) -> ResponseView {
    ResponseView {
        status: 200,
        headers: seq![("Content-Type"@, "application/json"@)] + extra,
        body: utf8(echo_json(req)),
    }
}

/// The echo of a request's headers and URL, as JSON text.
pub fn echo_text(req: &Request) -> (r: Vec<char>)
    ensures
        r@ == echo_json(req@),
{
    let mut url: Vec<char> = Vec::new();
    push_str(&mut url, "https://httpbin.org");
    push_str(&mut url, req.path.as_str());
    let url = string_of(url.as_slice());
    let mut es: Vec<(String, Vec<char>)> = Vec::new();
    es.push((String::from_str("headers"), json_map(&req.headers)));
    es.push((String::from_str("url"), json_string(url.as_str())));
    assert(es@.map_values(|e: (String, Vec<char>)| (e.0@, e.1@)) =~= seq![
        ("headers"@, json_text_map(req@.headers)),
        ("url"@, json_quoted(echo_url(req@.path))),
    ]);
    json_object_text(&es)
}

fn echo_response(req: &Request, extra: Vec<(String, String)>) -> (r: Response)
    ensures
        r@ == echo_view(req@, crate::types::headers_view(extra@)),
{
    let body = echo_text(req);
    let mut headers: Vec<(String, String)> = Vec::new();
    headers.push((String::from_str("Content-Type"), String::from_str("application/json")));
    let mut i: usize = 0;
    while i < extra.len()
        invariant
            i <= extra@.len(),
            crate::types::headers_view(headers@) == seq![("Content-Type"@, "application/json"@)]
                + crate::types::headers_view(extra@).subrange(0, i as int),
        decreases extra@.len() - i,
    {
        let ghost before = crate::types::headers_view(headers@);
        headers.push((extra[i].0.clone(), extra[i].1.clone()));
        assert(crate::types::headers_view(headers@) =~= before.push(
            crate::types::headers_view(extra@)[i as int],
        ));
        assert(crate::types::headers_view(headers@) =~= seq![
            ("Content-Type"@, "application/json"@),
        ] + crate::types::headers_view(extra@).subrange(0, i + 1));
        i = i + 1;
    }
    assert(crate::types::headers_view(extra@).subrange(0, extra@.len() as int)
        =~= crate::types::headers_view(extra@));
    Response { status: 200, headers, body: utf8_bytes(body.as_slice()) }
}

/// What `/cache` answers: 304 with nothing when `If-Modified-Since` or
/// `If-None-Match` is present, else 200 with fixed `Last-Modified` and `ETag`.
pub open spec fn cache_view(req: RequestView) -> ResponseView {
    if header_get(req.headers, "If-Modified-Since"@).is_some() || header_get(
        req.headers,
        "If-None-Match"@,
    ).is_some() {
        bare_view(304, Seq::empty())
    } else {
        echo_view(
            req,
            seq![
                ("Last-Modified"@, "Mon, 01 Jan 2024 00:00:00 GMT"@),
                ("ETag"@, "\"sample-etag\""@),
            ],
        )
    }
}

/// `/cache`.
pub fn cache_handler(req: &Request) -> (r: Response)
    ensures
        r@ == cache_view(req@),
{
    let ims = header_value(&req.headers, "If-Modified-Since");
    let inm = header_value(&req.headers, "If-None-Match");
    if ims.is_some() || inm.is_some() {
        let r = Response::new(304);
        assert(r@.headers =~= Seq::<(Seq<char>, Seq<char>)>::empty());
        r
    } else {
        let mut extra: Vec<(String, String)> = Vec::new();
        extra.push(
            (String::from_str("Last-Modified"), String::from_str("Mon, 01 Jan 2024 00:00:00 GMT")),
        );
        extra.push((String::from_str("ETag"), String::from_str("\"sample-etag\"")));
        let r = echo_response(req, extra);
        assert(crate::types::headers_view(extra@) =~= seq![
            ("Last-Modified"@, "Mon, 01 Jan 2024 00:00:00 GMT"@),
            ("ETag"@, "\"sample-etag\""@),
        ]);
        r
    }
}

/// What `/cache/<n>` answers: the echo with `Cache-Control: public,
/// max-age=<n>`, `n` being 60 when missing or unreadable.
pub open spec fn cache_n_view(req: RequestView) -> ResponseView {
    echo_view(
        req,
        seq![
            ("Cache-Control"@, "public, max-age="@ + decimal(
                num_or(req.path, "cache"@, U64_MAX as nat, 60),
            )),
        ],
    )
}

/// `/cache/<n>`.
pub fn cache_n_handler(req: &Request) -> (r: Response)
    ensures
        r@ == cache_n_view(req@),
{
    let n = path_number_or(req.path.as_str(), "cache", U64_MAX, 60);
    let mut v: Vec<char> = Vec::new();
    push_str(&mut v, "public, max-age=");
    push_decimal(&mut v, n);
    let mut extra: Vec<(String, String)> = Vec::new();
    extra.push((String::from_str("Cache-Control"), string_of(v.as_slice())));
    let r = echo_response(req, extra);
    assert(crate::types::headers_view(extra@) =~= seq![
        ("Cache-Control"@, "public, max-age="@ + decimal(n as nat)),
    ]);
    r
}

/// The quoted entity tag of `/etag/<etag>` (`default-etag` when missing).
pub open spec fn etag_of(path: Seq<char>) -> Seq<char> {
    let e = match tail_param(path, "etag"@) {
        Some(e) => e,
        None => "default-etag"@,
    };
    seq!['"'] + e + seq!['"']
}

/// What `/etag/<etag>` answers: 304 with the tag when `If-None-Match` is the
/// quoted tag or `*`; otherwise 412 when `If-Match` is present and neither;
/// otherwise 200 with the echo and the tag. `If-None-Match` goes first.
pub open spec fn etag_view(req: RequestView) -> ResponseView {
    let q = etag_of(req.path);
    let inm = header_get(req.headers, "If-None-Match"@);
    let im = header_get(req.headers, "If-Match"@);
    if inm == Some(q) || inm == Some("*"@) {
        bare_view(304, seq![("ETag"@, q)])
    } else if im.is_some() && im != Some(q) && im != Some("*"@) {
        bare_view(412, Seq::empty())
    } else {
        echo_view(req, seq![("ETag"@, q)])
    }
}

fn is_tag_or_star(v: &Option<String>, tag: &Vec<char>) -> (r: bool)
    ensures
        r == (crate::types::opt_view(*v) == Some(tag@) || crate::types::opt_view(*v) == Some(
            "*"@,
        )),
{
    match v {
        None => false,
        Some(s) => {
            let cs = chars_of(s.as_str());
            let star = chars_of("*");
            chars_eq(cs.as_slice(), tag.as_slice()) || chars_eq(cs.as_slice(), star.as_slice())
        },
    }
}

/// `/etag/<etag>`.
pub fn etag_handler(req: &Request) -> (r: Response)
    ensures
        r@ == etag_view(req@),
{
    let e = match path_tail(req.path.as_str(), "etag") {
        Some(e) => e,
        None => String::from_str("default-etag"),
    };
    let mut q: Vec<char> = Vec::new();
    q.push('"');
    push_str(&mut q, e.as_str());
    q.push('"');
    assert(q@ =~= etag_of(req@.path));
    let inm = header_value(&req.headers, "If-None-Match");
    if is_tag_or_star(&inm, &q) {
        return one_header_response(304, "ETag", string_of(q.as_slice()));
    }
    let im = header_value(&req.headers, "If-Match");
    if im.is_some() && !is_tag_or_star(&im, &q) {
        let r = Response::new(412);
        assert(r@.headers =~= Seq::<(Seq<char>, Seq<char>)>::empty());
        return r;
    }
    let mut extra: Vec<(String, String)> = Vec::new();
    extra.push((String::from_str("ETag"), string_of(q.as_slice())));
    let r = echo_response(req, extra);
    assert(crate::types::headers_view(extra@) =~= seq![("ETag"@, q@)]);
    r
}

/// `/cache`: with `If-None-Match` present the answer is 304 with an empty
/// body; with neither validator it is 200 with `Last-Modified` and `ETag`.
pub proof fn lemma_cache_validators(req: RequestView)
    ensures
        header_get(req.headers, "If-None-Match"@).is_some() ==> cache_view(req).status == 304
            && cache_view(req).body.len() == 0,
        header_get(req.headers, "If-None-Match"@).is_none() && header_get(
            req.headers,
            "If-Modified-Since"@,
        ).is_none() ==> cache_view(req).status == 200 && cache_view(req).headers.len() == 3
            && cache_view(req).headers[1] == ("Last-Modified"@, "Mon, 01 Jan 2024 00:00:00 GMT"@)
            && cache_view(req).headers[2] == ("ETag"@, "\"sample-etag\""@),
{
}

/// `/etag/<etag>`: an `If-None-Match` naming the quoted tag gives 304; an
/// `If-Match` naming another tag, with no matching `If-None-Match`, gives
/// 412; with no validator the answer is 200 carrying the quoted tag.
pub proof fn lemma_etag_validators(req: RequestView)
    ensures
        header_get(req.headers, "If-None-Match"@) == Some(etag_of(req.path)) ==> etag_view(
            req,
        ).status == 304 && etag_view(req).headers == seq![("ETag"@, etag_of(req.path))],
        ({
            let inm = header_get(req.headers, "If-None-Match"@);
            let im = header_get(req.headers, "If-Match"@);
            inm.is_none() && im.is_some() && im != Some(etag_of(req.path)) && im != Some("*"@)
        }) ==> etag_view(req).status == 412,
        header_get(req.headers, "If-None-Match"@).is_none() && header_get(
            req.headers,
            "If-Match"@,
        ).is_none() ==> etag_view(req).status == 200 && etag_view(req).headers[1] == (
            "ETag"@,
            etag_of(req.path),
        ),
{
}

} // verus!
