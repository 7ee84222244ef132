use vstd::prelude::*;

use crate::bridge::{brotli_compress, brotli_of, deflate_compress, deflate_of, gzip_compress, gzip_of, json_quoted};
use crate::echo::{origin, origin_of};
use crate::json::{json_map, json_object, json_object_text, json_string, json_text_map};
use crate::streaming::echo_url;
use crate::text::{chars_of, push_str, string_of, utf8, utf8_bytes};
use crate::types::{Request, RequestView, Response, ResponseView};

verus! {

/// The payload the compression endpoints compress.
pub open spec fn sample_json(req: RequestView) -> Seq<char> {
    json_object(
        seq![
            ("brotli"@, "true"@),
            ("deflated"@, "true"@),
            ("gzipped"@, "true"@),
            ("headers"@, json_text_map(req.headers)),
            ("method"@, json_quoted(req.method)),
            ("origin"@, json_quoted(origin_of(req.headers))),
            ("url"@, json_quoted(echo_url(req.path))),
        ],
    )
}

/// A JSON body in the given content encoding.
pub open spec fn encoded_view(body: Seq<u8>, encoding: Seq<char>) -> ResponseView {
    ResponseView {
        status: 200,
        headers: seq![("Content-Type"@, "application/json"@), ("Content-Encoding"@, encoding)],
        body,
    }
}

/// The payload the compression endpoints compress, as UTF-8.
pub fn get_sample_data(req: &Request) -> (r: Vec<u8>)
    ensures
        r@ == utf8(sample_json(req@)),
{
    let o = origin(&req.headers);
    let mut url: Vec<char> = Vec::new();
    push_str(&mut url, "https://httpbin.org");
    push_str(&mut url, req.path.as_str());
    let url = string_of(url.as_slice());
    let mut es: Vec<(String, Vec<char>)> = Vec::new();
    es.push((String::from_str("brotli"), chars_of("true")));
    es.push((String::from_str("deflated"), chars_of("true")));
    es.push((String::from_str("gzipped"), chars_of("true")));
    es.push((String::from_str("headers"), json_map(&req.headers)));
    es.push((String::from_str("method"), json_string(req.method.as_str())));
    es.push((String::from_str("origin"), json_string(o.as_str())));
    es.push((String::from_str("url"), json_string(url.as_str())));
    assert(es@.map_values(|e: (String, Vec<char>)| (e.0@, e.1@)) =~= seq![
        ("brotli"@, "true"@),
        ("deflated"@, "true"@),
        ("gzipped"@, "true"@),
        ("headers"@, json_text_map(req@.headers)),
        ("method"@, json_quoted(req@.method)),
        ("origin"@, json_quoted(origin_of(req@.headers))),
        ("url"@, json_quoted(echo_url(req@.path))),
    ]);
    let json = json_object_text(&es);
    utf8_bytes(json.as_slice())
}

fn encoded(body: Vec<u8>, encoding: &str) -> (r: Response)
    ensures
        r@ == encoded_view(body@, encoding@),
{
    let mut headers: Vec<(String, String)> = Vec::new();
    headers.push((String::from_str("Content-Type"), String::from_str("application/json")));
    headers.push((String::from_str("Content-Encoding"), String::from_str(encoding)));
    let r = Response { status: 200, headers, body };
    assert(r@.headers =~= encoded_view(body@, encoding@).headers);
    r
}

/// `/gzip`: the sample payload, gzip-compressed.
pub fn gzip_handler(req: &Request) -> (r: Response)
    ensures
        r@ == encoded_view(gzip_of(utf8(sample_json(req@))), "gzip"@),
{
    let data = get_sample_data(req);
    encoded(gzip_compress(data.as_slice()), "gzip")
}

/// `/deflate`: the sample payload, deflate-compressed.
pub fn deflate_handler(req: &Request) -> (r: Response)
    ensures
        r@ == encoded_view(deflate_of(utf8(sample_json(req@))), "deflate"@),
{
    let data = get_sample_data(req);
    encoded(deflate_compress(data.as_slice()), "deflate")
}

/// `/brotli`: the sample payload, brotli-compressed.
pub fn brotli_handler(req: &Request) -> (r: Response)
    ensures
        r@ == encoded_view(brotli_of(utf8(sample_json(req@))), "br"@),
{
    let data = get_sample_data(req);
    encoded(brotli_compress(data.as_slice()), "br")
}

} // verus!
