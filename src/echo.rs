use vstd::prelude::*;

use crate::auth::{json_response, json_view, text_response, text_view};
use crate::bridge::{is_uuid_v4_text, base64_decoded, decode_base64, json_quoted, lossy_text, utf8_lossy_text, uuid_v4_text};
use crate::json::{json_map, json_object, json_object_text, json_string, json_text_map};
use crate::params::{client_ip, get_client_ip, parse_query, path_tail, query_map, query_of, query_part, tail_param};
use crate::streaming::echo_url;
use crate::text::{push_str, string_of, utf8};
use crate::types::{HeadersView, Request, RequestView, Response, ResponseView, header_get, header_set, header_value, headers_view};

verus! {

/// The standard echo of the method endpoints; absent parts are left out.
pub struct HttpBinResponse {
    pub args: Option<Vec<(String, String)>>,
    pub headers: Option<Vec<(String, String)>>,
    pub url: Option<String>,
    pub origin: Option<String>,
}

/// A member for each present part, in the order args, headers, url, origin.
pub open spec fn httpbin_members(
    args: Option<HeadersView>,
    headers: Option<HeadersView>,
    url: Option<Seq<char>>,
    origin: Option<Seq<char>>,
) -> Seq<(Seq<char>, Seq<char>)> {
    (match args {
        Some(a) => seq![("args"@, json_text_map(a))],
        None => Seq::empty(),
    }) + (match headers {
        Some(h) => seq![("headers"@, json_text_map(h))],
        None => Seq::empty(),
    }) + (match url {
        Some(u) => seq![("url"@, json_quoted(u))],
        None => Seq::empty(),
    }) + (match origin {
        Some(o) => seq![("origin"@, json_quoted(o))],
        None => Seq::empty(),
    })
}

pub open spec fn opt_headers(o: Option<Vec<(String, String)>>) -> Option<HeadersView> {
    match o {
        Some(v) => Some(headers_view(v@)),
        None => None,
    }
}

impl HttpBinResponse {
    /// The JSON text of this echo.
    pub fn to_json(&self) -> (r: Vec<char>)
        ensures
            r@ == json_object(
                httpbin_members(
                    opt_headers(self.args),
                    opt_headers(self.headers),
                    crate::types::opt_view(self.url),
                    crate::types::opt_view(self.origin),
                ),
            ),
    {
        let mut es: Vec<(String, Vec<char>)> = Vec::new();
        let ghost mut want: Seq<(Seq<char>, Seq<char>)> = Seq::empty();
        match &self.args {
            Some(a) => {
                es.push((String::from_str("args"), json_map(a)));
                proof {
                    want = want.push(("args"@, json_text_map(headers_view(a@))));
                }
            },
            None => {},
        }
        match &self.headers {
            Some(h) => {
                es.push((String::from_str("headers"), json_map(h)));
                proof {
                    want = want.push(("headers"@, json_text_map(headers_view(h@))));
                }
            },
            None => {},
        }
        match &self.url {
            Some(u) => {
                es.push((String::from_str("url"), json_string(u.as_str())));
                proof {
                    want = want.push(("url"@, json_quoted(u@)));
                }
            },
            None => {},
        }
        match &self.origin {
            Some(o) => {
                es.push((String::from_str("origin"), json_string(o.as_str())));
                proof {
                    want = want.push(("origin"@, json_quoted(o@)));
                }
            },
            None => {},
        }
        assert(es@.map_values(|e: (String, Vec<char>)| (e.0@, e.1@)) =~= want);
        assert(want =~= httpbin_members(
            opt_headers(self.args),
            opt_headers(self.headers),
            crate::types::opt_view(self.url),
            crate::types::opt_view(self.origin),
        ));
        json_object_text(&es)
    }
}

/// A copy of a list of pairs.
pub fn clone_pairs(v: &Vec<(String, String)>) -> (r: Vec<(String, String)>)
    ensures
        headers_view(r@) == headers_view(v@),
{
    let mut r: Vec<(String, String)> = Vec::new();
    let mut i: usize = 0;
    while i < v.len()
        invariant
            i <= v@.len(),
            headers_view(r@) == headers_view(v@).subrange(0, i as int),
        decreases v@.len() - i,
    {
        let ghost before = headers_view(r@);
        r.push((v[i].0.clone(), v[i].1.clone()));
        assert(headers_view(r@) =~= before.push(headers_view(v@)[i as int]));
        assert(headers_view(v@).subrange(0, i + 1) =~= headers_view(v@).subrange(0, i as int).push(
            headers_view(v@)[i as int],
        ));
        i = i + 1;
    }
    assert(headers_view(v@).subrange(0, v@.len() as int) =~= headers_view(v@));
    r
}

/// The echo of the method endpoints: query arguments, headers, URL, and the
/// client address when the proxy headers give one.
pub open spec fn method_json(req: RequestView) -> Seq<char> {
    json_object(
        httpbin_members(
            Some(query_map(query_of(req.path))),
            Some(req.headers),
            Some(echo_url(req.path)),
            client_ip(req.headers),
        ),
    )
}

/// The echo of the method endpoints for a request.
pub fn method_echo(req: &Request) -> (r: HttpBinResponse)
    ensures
        r.to_json_spec() == method_json(req@),
{
    let q = query_part(req.path.as_str());
    let mut url: Vec<char> = Vec::new();
    push_str(&mut url, "https://httpbin.org");
    push_str(&mut url, req.path.as_str());
    HttpBinResponse {
        args: Some(parse_query(q.as_str())),
        headers: Some(clone_pairs(&req.headers)),
        url: Some(string_of(url.as_slice())),
        origin: get_client_ip(&req.headers),
    }
}

impl HttpBinResponse {
    pub open spec fn to_json_spec(&self) -> Seq<char> {
        json_object(
            httpbin_members(
                opt_headers(self.args),
                opt_headers(self.headers),
                crate::types::opt_view(self.url),
                crate::types::opt_view(self.origin),
            ),
        )
    }
}

fn method_response(req: &Request) -> (r: Response)
    ensures
        r@ == json_view(method_json(req@)),
{
    let e = method_echo(req);
    let json = e.to_json();
    json_response(json.as_slice())
}

/// `/get`: echoes query arguments, headers, URL and client address.
pub fn get_handler(req: &Request) -> (r: Response)
    ensures
        r@ == json_view(method_json(req@)),
{
    method_response(req)
}

/// `/post`: as `/get`.
pub fn post_handler(req: &Request) -> (r: Response)
    ensures
        r@ == json_view(method_json(req@)),
{
    method_response(req)
}

/// `/put`: as `/get`.
pub fn put_handler(req: &Request) -> (r: Response)
    ensures
        r@ == json_view(method_json(req@)),
{
    method_response(req)
}

/// `/patch`: as `/get`.
pub fn patch_handler(req: &Request) -> (r: Response)
    ensures
        r@ == json_view(method_json(req@)),
{
    method_response(req)
}

/// `/delete`: as `/get`.
pub fn delete_handler(req: &Request) -> (r: Response)
    ensures
        r@ == json_view(method_json(req@)),
{
    method_response(req)
}

/// The client address, `127.0.0.1` when the proxy headers give none.
pub open spec fn origin_of(hs: HeadersView) -> Seq<char> {
    match client_ip(hs) {
        Some(ip) => ip,
        None => "127.0.0.1"@,
    }
}

/// The client address, `127.0.0.1` when the proxy headers give none.
pub fn origin(headers: &Vec<(String, String)>) -> (r: String)
    ensures
        r@ == origin_of(headers_view(headers@)),
{
    match get_client_ip(headers) {
        Some(ip) => ip,
        None => String::from_str("127.0.0.1"),
    }
}

/// The echo of `/anything`: arguments, headers, method, origin and URL.
pub open spec fn anything_json(req: RequestView) -> Seq<char> {
    json_object(
        seq![
            ("args"@, json_text_map(query_map(query_of(req.path)))),
            ("headers"@, json_text_map(req.headers)),
            ("method"@, json_quoted(req.method)),
            ("origin"@, json_quoted(origin_of(req.headers))),
            ("url"@, json_quoted(echo_url(req.path))),
        ],
    )
}

/// `/anything`: echoes the whole request.
pub fn anything_handler(req: &Request) -> (r: Response)
    ensures
        r@ == json_view(anything_json(req@)),
{
    let q = query_part(req.path.as_str());
    let args = parse_query(q.as_str());
    let o = origin(&req.headers);
    let mut url: Vec<char> = Vec::new();
    push_str(&mut url, "https://httpbin.org");
    push_str(&mut url, req.path.as_str());
    let url = string_of(url.as_slice());
    let mut es: Vec<(String, Vec<char>)> = Vec::new();
    es.push((String::from_str("args"), json_map(&args)));
    es.push((String::from_str("headers"), json_map(&req.headers)));
    es.push((String::from_str("method"), json_string(req.method.as_str())));
    es.push((String::from_str("origin"), json_string(o.as_str())));
    es.push((String::from_str("url"), json_string(url.as_str())));
    assert(es@.map_values(|e: (String, Vec<char>)| (e.0@, e.1@)) =~= seq![
        ("args"@, json_text_map(query_map(query_of(req@.path)))),
        ("headers"@, json_text_map(req@.headers)),
        ("method"@, json_quoted(req@.method)),
        ("origin"@, json_quoted(origin_of(req@.headers))),
        ("url"@, json_quoted(echo_url(req@.path))),
    ]);
    let json = json_object_text(&es);
    json_response(json.as_slice())
}

/// `/anything/<path>`: as `/anything`.
pub fn anything_path_handler(req: &Request) -> (r: Response)
    ensures
        r@ == json_view(anything_json(req@)),
{
    anything_handler(req)
}

/// A JSON object of one string member.
pub open spec fn single_json(key: Seq<char>, value: Seq<char>) -> Seq<char> {
    json_object(seq![(key, json_quoted(value))])
}

fn single(key: &str, value: &str) -> (r: Response)
    ensures
        r@ == json_view(single_json(key@, value@)),
{
    let mut es: Vec<(String, Vec<char>)> = Vec::new();
    es.push((String::from_str(key), json_string(value)));
    assert(es@.map_values(|e: (String, Vec<char>)| (e.0@, e.1@)) =~= seq![(key@, json_quoted(value@))]);
    let json = json_object_text(&es);
    json_response(json.as_slice())
}

/// `/headers`: `{"headers":{...}}`.
pub fn headers_handler(req: &Request) -> (r: Response)
    ensures
        r@ == json_view(json_object(seq![("headers"@, json_text_map(req@.headers))])),
{
    let mut es: Vec<(String, Vec<char>)> = Vec::new();
    es.push((String::from_str("headers"), json_map(&req.headers)));
    assert(es@.map_values(|e: (String, Vec<char>)| (e.0@, e.1@)) =~= seq![
        ("headers"@, json_text_map(req@.headers)),
    ]);
    let json = json_object_text(&es);
    json_response(json.as_slice())
}

/// The user agent of a request, `Unknown` when it names none.
pub open spec fn user_agent_of(hs: HeadersView) -> Seq<char> {
    match header_get(hs, "User-Agent"@) {
        Some(u) => u,
        None => "Unknown"@,
    }
}

/// `/user-agent`: `{"user-agent":"..."}`.
pub fn user_agent_handler(req: &Request) -> (r: Response)
    ensures
        r@ == json_view(single_json("user-agent"@, user_agent_of(req@.headers))),
{
    let ua = match header_value(&req.headers, "User-Agent") {
        Some(u) => u,
        None => String::from_str("Unknown"),
    };
    single("user-agent", ua.as_str())
}

/// `/ip`: `{"origin":"..."}`.
pub fn ip_handler(req: &Request) -> (r: Response)
    ensures
        r@ == json_view(single_json("origin"@, origin_of(req@.headers))),
{
    let o = origin(&req.headers);
    single("origin", o.as_str())
}

/// `/uuid`: `{"uuid":"..."}` with a fresh random UUID.
pub fn uuid_handler(req: &Request) -> (r: Response)
    ensures
        exists|u: Seq<char>|
            is_uuid_v4_text(u) && r@ == json_view(single_json("uuid"@, u)),
{
    let u = uuid_v4_text();
    let r = single("uuid", u.as_str());
    assert(is_uuid_v4_text(u@) && r@ == json_view(single_json("uuid"@, u@)));
    r
}

/// What `/base64/<value>` answers: the decoded text, invalid UTF-8 replaced,
/// or 400 when the value is not base64.
pub open spec fn base64_view(req: RequestView) -> ResponseView {
    let v = match tail_param(req.path, "base64"@) {
        Some(v) => v,
        None => Seq::empty(),
    };
    match base64_decoded(v) {
        Some(b) => text_view(200, utf8_lossy_text(b)),
        None => text_view(400, "Invalid base64"@),
    }
}

/// `/base64/<value>`.
pub fn base64_handler(req: &Request) -> (r: Response)
    ensures
        r@ == base64_view(req@),
{
    let v = match path_tail(req.path.as_str(), "base64") {
        Some(v) => v,
        None => String::new(),
    };
    let text = match decode_base64(v.as_str()) {
        Ok(b) => Some(lossy_text(b.as_slice())),
        Err(_) => None,
    };
    base64_answer(text)
}

/// The base64 endpoint's answer for the decoded text, or for a value that
/// did not decode.
pub fn base64_answer(text: Option<String>) -> (r: Response)
    ensures
        match text {
            Some(t) => r@ == text_view(200, t@),
            None => r@ == text_view(400, "Invalid base64"@),
        },
{
    match text {
        Some(t) => text_response(200, t.as_str()),
        None => text_response(400, "Invalid base64"),
    }
}

/// What `/response-headers?k=v...` answers: each parameter as a header, then
/// a JSON body that sets the content type.
pub open spec fn response_headers_view(req: RequestView) -> ResponseView {
    ResponseView {
        status: 200,
        headers: header_set(query_map(query_of(req.path)), "Content-Type"@, "application/json"@),
        body: utf8(
            json_object(
                seq![
                    ("Content-Length"@, "0"@),
                    ("Content-Type"@, json_quoted("application/json"@)),
                ],
            ),
        ),
    }
}

/// `/response-headers?k=v...`.
pub fn response_headers_handler(req: &Request) -> (r: Response)
    ensures
        r@ == response_headers_view(req@),
{
    let q = query_part(req.path.as_str());
    let headers = parse_query(q.as_str());
    let mut es: Vec<(String, Vec<char>)> = Vec::new();
    es.push((String::from_str("Content-Length"), crate::text::chars_of("0")));
    es.push((String::from_str("Content-Type"), json_string("application/json")));
    assert(es@.map_values(|e: (String, Vec<char>)| (e.0@, e.1@)) =~= seq![
        ("Content-Length"@, "0"@),
        ("Content-Type"@, json_quoted("application/json"@)),
    ]);
    let json = json_object_text(&es);
    let r = Response { status: 200, headers, body: Vec::new() };
    r.with_json(json.as_slice())
}

} // verus!
