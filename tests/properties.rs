use std::io::Read;

use httpbin_core::auth::{credentials_match, 
    basic_auth_handler, digest_auth_algorithm_handler, digest_auth_handler,
    hidden_basic_auth_handler, parse_digest_auth,
};
use httpbin_core::caching::{cache_handler, etag_handler};
use httpbin_core::compression::{brotli_handler, deflate_handler, get_sample_data, gzip_handler};
use httpbin_core::content::{image_for_accept, image_handler};
use httpbin_core::cookies::{cookies_delete_handler, cookies_handler, cookies_set_specific_handler, parse_cookies};
use httpbin_core::delay::{delay_response, delay_seconds};
use httpbin_core::echo::{base64_answer, base64_handler, get_handler, ip_handler, user_agent_handler, uuid_handler};
use httpbin_core::json::{json_map, json_string};
use httpbin_core::params::{get_client_ip, parse_query, path_segments, path_tail, protocol_prefix, query_part};
use httpbin_core::redirect::{absolute_redirect_handler, redirect_handler, redirect_to_handler, relative_redirect_handler};
use httpbin_core::routing::{
    convert_path_to_pattern, determine_handler_info, gate_passes, protocol_of, register_any_protocol_mocks,
    register_h1_mocks, register_h3_mocks, Action, Handler, RouteClass, RouteTable,
};
use httpbin_core::status::status_handler;
use httpbin_core::streaming::{drip_handler, links_handler, parse_byte_range, range_handler, range_response, stream_bytes_handler};
use httpbin_core::text::{chars_of, parse_uint_chars, trim_chars, utf8_bytes};
use httpbin_core::types::{header_value, Protocol, Request, Response};

fn request(method: &str, path: &str, headers: &[(&str, &str)], version: &str) -> Request {
    Request {
        method: method.to_string(),
        path: path.to_string(),
        headers: headers.iter().map(|(k, v)| (k.to_string(), v.to_string())).collect(),
        http_version: version.to_string(),
    }
}

fn body_text(r: &Response) -> String {
    String::from_utf8(r.body.clone()).unwrap()
}

fn same(a: &Response, b: &Response) -> bool {
    a.status == b.status && a.headers == b.headers && a.body == b.body
}

fn respond(a: Action) -> Response {
    match a {
        Action::Respond(r) => r,
        Action::DelayThenRespond(_, r) => r,
        Action::NotFound => panic!("no route"),
    }
}

#[test]
fn h1_only_route_refuses_h2_and_h3() {
    let table = RouteTable::standard();
    for version in ["HTTP/2.0", "HTTP/3.0"] {
        let req = request("GET", "/h1/uuid", &[], version);
        let r = respond(table.dispatch(&req));
        assert_eq!(r.status, 421);
        assert_eq!(body_text(&r), "Misdirected Request");
        assert!(r.headers.is_empty());
    }
    let req = request("GET", "/h1/uuid", &[], "HTTP/1.1");
    assert_eq!(respond(table.dispatch(&req)).status, 200);
}

#[test]
fn h2_and_h3_routes_refuse_other_protocols() {
    let table = RouteTable::standard();
    let r = respond(table.dispatch(&request("GET", "/h2/get", &[], "HTTP/1.1")));
    assert_eq!(r.status, 421);
    let r = respond(table.dispatch(&request("GET", "/h3/get", &[], "HTTP/2.0")));
    assert_eq!(r.status, 421);
    let r = respond(table.dispatch(&request("GET", "/h3/get", &[], "HTTP/3.0")));
    assert_eq!(r.status, 200);
    let r = respond(table.dispatch(&request("GET", "/get", &[], "HTTP/3.0")));
    assert_eq!(r.status, 200);
}

#[test]
fn unknown_route_is_not_found() {
    let table = RouteTable::standard();
    assert!(matches!(table.dispatch(&request("GET", "/nowhere", &[], "HTTP/1.1")), Action::NotFound));
    assert!(matches!(table.dispatch(&request("POST", "/get", &[], "HTTP/1.1")), Action::NotFound));
    assert!(matches!(table.dispatch(&request("GET", "/status/999", &[], "HTTP/1.1")), Action::NotFound));
}

#[test]
fn delay_route_asks_for_a_capped_wait() {
    let table = RouteTable::standard();
    match table.dispatch(&request("GET", "/delay/10", &[], "HTTP/1.1")) {
        Action::DelayThenRespond(s, r) => {
            assert_eq!(s, 10);
            assert_eq!(r.status, 200);
        }
        _ => panic!("expected a wait"),
    }
    assert_eq!(delay_seconds(&request("GET", "/delay/100", &[], "HTTP/1.1")), 10);
    assert_eq!(delay_seconds(&request("GET", "/delay/2", &[], "HTTP/1.1")), 2);
    assert_eq!(delay_seconds(&request("GET", "/delay", &[], "HTTP/1.1")), 1);
    assert_eq!(delay_response(&request("GET", "/delay/2", &[], "HTTP/1.1")).status, 200);
}

#[test]
fn route_table_holds_each_route_once() {
    let mut table = RouteTable::new();
    assert!(table.add("GET", "/status/200"));
    assert!(!table.add("GET", "/status/200"));
    assert!(table.add("GET", "/h1/status/200"));
    assert!(!table.add("GET", "/no-such-endpoint"));
    assert_eq!(table.len(), 2);
    assert_eq!(table.find("GET", "/h1/status/200"), Some(1));
    assert_eq!(table.find("GET", "/h2/status/200"), None);
    let full = RouteTable::standard();
    assert!(full.find("GET", "/h3/etag/abc123").is_some());
    assert!(full.find("DELETE", "/h2/delete").is_some());
}

#[test]
fn handler_info_by_path() {
    assert_eq!(determine_handler_info("/h1/status/{code}"), (Some(Handler::Status), false));
    assert_eq!(determine_handler_info("/delay/3"), (Some(Handler::Delay), true));
    assert_eq!(determine_handler_info("/cookies/set/a/b"), (Some(Handler::CookiesSetSpecific), false));
    assert_eq!(determine_handler_info("/cookies/set"), (Some(Handler::CookiesSet), false));
    assert_eq!(determine_handler_info("/image/webp"), (Some(Handler::ImageWebp), false));
    assert_eq!(determine_handler_info("/cache/60"), (Some(Handler::CacheN), false));
    assert_eq!(determine_handler_info("/digest-auth/auth/u/p"), (Some(Handler::DigestAuth), false));
    assert_eq!(determine_handler_info("/digest-auth/auth/u/p/MD5"), (Some(Handler::DigestAuthAlgorithm), false));
    assert_eq!(determine_handler_info("/unknown"), (None, false));
    assert_eq!(determine_handler_info("/h1/digest-auth/auth/u/p"), (Some(Handler::DigestAuth), false));
    assert_eq!(determine_handler_info("/h3/digest-auth/auth/u/p/MD5"), (Some(Handler::DigestAuthAlgorithm), false));
}

#[test]
fn gate_and_protocol_names() {
    assert_eq!(protocol_of("HTTP/1.1"), Protocol::H1);
    assert_eq!(protocol_of("HTTP/2.0"), Protocol::H2);
    assert_eq!(protocol_of("HTTP/3"), Protocol::H3);
    assert_eq!(protocol_of("HTTP/1.0"), Protocol::Unspecified);
    assert!(gate_passes(RouteClass::Any, Protocol::Unspecified));
    assert!(gate_passes(RouteClass::H2Only, Protocol::H2));
    assert!(!gate_passes(RouteClass::H1Only, Protocol::H3));
}

#[test]
fn cache_conditional_headers() {
    let r = cache_handler(&request("GET", "/cache", &[("if-none-match", "x")], "HTTP/1.1"));
    assert_eq!(r.status, 304);
    assert!(r.body.is_empty());
    let r = cache_handler(&request("GET", "/cache", &[("If-Modified-Since", "x")], "HTTP/1.1"));
    assert_eq!(r.status, 304);
    let r = cache_handler(&request("GET", "/cache", &[], "HTTP/1.1"));
    assert_eq!(r.status, 200);
    assert_eq!(r.header("ETag"), Some("\"sample-etag\"".to_string()));
    assert_eq!(r.header("Last-Modified"), Some("Mon, 01 Jan 2024 00:00:00 GMT".to_string()));
    assert_eq!(body_text(&r), "{\"headers\":{},\"url\":\"https://httpbin.org/cache\"}");
}

#[test]
fn etag_validation() {
    let r = etag_handler(&request("GET", "/etag/test123", &[("If-None-Match", "\"test123\"")], "HTTP/1.1"));
    assert_eq!(r.status, 304);
    assert_eq!(r.header("ETag"), Some("\"test123\"".to_string()));
    let r = etag_handler(&request("GET", "/etag/test123", &[("If-Match", "\"other\"")], "HTTP/1.1"));
    assert_eq!(r.status, 412);
    let r = etag_handler(&request("GET", "/etag/test123", &[("If-None-Match", "*")], "HTTP/1.1"));
    assert_eq!(r.status, 304);
    let r = etag_handler(&request("GET", "/etag/test123", &[("If-Match", "*")], "HTTP/1.1"));
    assert_eq!(r.status, 200);
    let r = etag_handler(
        &request("GET", "/etag/test123", &[("If-None-Match", "\"x\""), ("If-Match", "\"test123\"")], "HTTP/1.1"),
    );
    assert_eq!(r.status, 200);
    let r = etag_handler(&request("GET", "/h2/etag/abc", &[], "HTTP/2.0"));
    assert_eq!(r.header("ETag"), Some("\"abc\"".to_string()));
}

#[test]
fn basic_auth_outcomes() {
    let good = request("GET", "/basic-auth/user/pass", &[("authorization", "Basic dXNlcjpwYXNz")], "HTTP/1.1");
    let r = basic_auth_handler(&good);
    assert_eq!(r.status, 200);
    assert_eq!(body_text(&r), "{\"authenticated\":true,\"user\":\"user\"}");
    let r = basic_auth_handler(&request("GET", "/basic-auth/user/pass", &[], "HTTP/1.1"));
    assert_eq!(r.status, 401);
    assert_eq!(r.header("WWW-Authenticate"), Some("Basic realm=\"Fake Realm\"".to_string()));
    // "user:wrong"
    let bad = request("GET", "/basic-auth/user/pass", &[("Authorization", "Basic dXNlcjp3cm9uZw==")], "HTTP/1.1");
    assert_eq!(basic_auth_handler(&bad).status, 401);
    let r = hidden_basic_auth_handler(&request("GET", "/hidden-basic-auth/user/pass", &[("Authorization", "Basic dXNlcjp3cm9uZw==")], "HTTP/1.1"));
    assert_eq!(r.status, 404);
    assert!(!r.has_header("WWW-Authenticate"));
    let r = basic_auth_handler(&request("GET", "/basic-auth/user", &[], "HTTP/1.1"));
    assert_eq!(r.status, 400);
    assert_eq!(body_text(&r), "Invalid parameters");
}

#[test]
fn digest_auth_outcomes() {
    let ok = request(
        "GET",
        "/digest-auth/auth/user/pass",
        &[("Authorization", "Digest username=\"user\", realm=\"Fake Realm\", response=\"bogus\"")],
        "HTTP/1.1",
    );
    let r = digest_auth_handler(&ok);
    assert_eq!(r.status, 200);
    assert_eq!(body_text(&r), "{\"authenticated\":true,\"user\":\"user\"}");
    let r = digest_auth_handler(&request("GET", "/digest-auth/auth/user/pass", &[], "HTTP/1.1"));
    let c = r.header("WWW-Authenticate").unwrap();
    assert!(c.starts_with("Digest realm=\"Fake Realm\", nonce=\""));
    assert!(c.ends_with("\", qop=\"auth\""));
    let start = c.find("nonce=\"").unwrap() + 7;
    let nonce = &c[start..start + 32];
    assert_eq!(&c[start + 32..start + 34], "\",");
    assert!(nonce.chars().all(|x| x.is_ascii_hexdigit() && !x.is_ascii_uppercase()));
    let r2 = digest_auth_handler(&request("GET", "/digest-auth/auth/user/pass", &[], "HTTP/1.1"));
    assert_ne!(r2.header("WWW-Authenticate"), Some(c.clone()));
    let r = digest_auth_algorithm_handler(&request("GET", "/digest-auth/auth/user/pass/MD5", &[], "HTTP/1.1"));
    assert_eq!(r.status, 401);
    assert!(r.header("WWW-Authenticate").unwrap().contains("algorithm=\"MD5\", qop=\"auth\""));
    let params = parse_digest_auth("Digest username=\"a\", nonce = \"n\" , username=b");
    assert_eq!(params, vec![("username".to_string(), "b".to_string()), ("nonce ".to_string(), " \"n".to_string())]);
}

#[test]
fn redirect_chain_keeps_prefix() {
    let r = redirect_handler(&request("GET", "/h2/redirect/3", &[], "HTTP/2.0"));
    assert_eq!(r.status, 302);
    assert_eq!(r.header("Location"), Some("/h2/redirect/2".to_string()));
    let r = relative_redirect_handler(&request("GET", "/h3/relative-redirect/5", &[], "HTTP/3.0"));
    assert_eq!(r.header("Location"), Some("/h3/relative-redirect/4".to_string()));
    let a = absolute_redirect_handler(&request("GET", "/h1/absolute-redirect/4", &[], "HTTP/1.1"));
    let r = redirect_handler(&request("GET", "/h1/redirect/4", &[], "HTTP/1.1"));
    assert!(same(&a, &r));
    assert_eq!(a.header("Location"), Some("/h1/redirect/3".to_string()));
    let a = absolute_redirect_handler(&request("GET", "/absolute-redirect/1", &[], "HTTP/1.1"));
    assert_eq!(a.header("Location"), Some("/get".to_string()));
    let r = redirect_to_handler(&request("GET", "/redirect-to?url=/x&status_code=999", &[], "HTTP/1.1"));
    assert_eq!(r.status, 302);
    let r = redirect_to_handler(&request("GET", "/redirect-to?url=/x&status_code=0", &[], "HTTP/1.1"));
    assert_eq!(r.status, 302);
    let r = redirect_to_handler(&request("GET", "/redirect-to?url=/x&status_code=307", &[], "HTTP/1.1"));
    assert_eq!(r.status, 307);
    let r = redirect_handler(&request("GET", "/redirect/x", &[], "HTTP/1.1"));
    assert_eq!(r.header("Location"), Some("/get".to_string()));
    let r = redirect_to_handler(&request("GET", "/redirect-to", &[], "HTTP/1.1"));
    assert_eq!(r.status, 302);
    assert_eq!(r.header("Location"), Some("/get".to_string()));
}

#[test]
fn range_requests() {
    let r = range_handler(&request("GET", "/range/1024", &[("Range", "bytes=0-99")], "HTTP/1.1"));
    assert_eq!(r.status, 206);
    assert_eq!(r.body.len(), 100);
    assert_eq!(r.header("Content-Range"), Some("bytes 0-99/1024".to_string()));
    let data: Vec<u8> = (0..10u8).collect();
    let req = request("GET", "/range/10", &[("range", "bytes=4-")], "HTTP/1.1");
    let r = range_response(&req, data.clone());
    assert_eq!(r.status, 206);
    assert_eq!(r.body, vec![4, 5, 6, 7, 8, 9]);
    assert_eq!(r.header("Content-Range"), Some("bytes 4-9/10".to_string()));
    let req = request("GET", "/range/10", &[("Range", "bytes=20-30")], "HTTP/1.1");
    let r = range_response(&req, data.clone());
    assert_eq!(r.status, 200);
    assert_eq!(r.header("Accept-Ranges"), Some("bytes".to_string()));
    assert_eq!(r.body, data);
    assert_eq!(parse_byte_range("bytes=2-100", 10), Some((2, 9)));
    assert_eq!(parse_byte_range("bytes=5-3", 10), None);
    assert_eq!(parse_byte_range("bytes=-3", 10), Some((0, 3)));
    assert_eq!(parse_byte_range("items=0-3", 10), None);
    assert_eq!(parse_byte_range("bytes=0-0", 0), None);
    let r = range_handler(&request("GET", "/range/999999", &[], "HTTP/1.1"));
    assert_eq!(r.body.len(), 102400);
    let r = range_handler(&request("GET", "/range/100000000000000000000", &[], "HTTP/1.1"));
    assert_eq!(r.body.len(), 102400);
}

#[test]
fn status_codes() {
    assert_eq!(status_handler(&request("GET", "/status/999", &[], "HTTP/1.1")).status, 400);
    let r = status_handler(&request("GET", "/status/404", &[], "HTTP/1.1"));
    assert_eq!(r.status, 404);
    assert_eq!(body_text(&r), "Status: 404");
    assert_eq!(status_handler(&request("GET", "/status/99", &[], "HTTP/1.1")).status, 400);
    assert_eq!(status_handler(&request("GET", "/status/599", &[], "HTTP/1.1")).status, 599);
    assert_eq!(status_handler(&request("GET", "/status/70000", &[], "HTTP/1.1")).status, 400);
    assert_eq!(status_handler(&request("GET", "/status/100000000000000000000000", &[], "HTTP/1.1")).status, 400);
    assert_eq!(status_handler(&request("GET", "/status/x", &[], "HTTP/1.1")).status, 200);
}

#[test]
fn identical_requests_identical_responses() {
    let table = RouteTable::standard();
    let hs = [("X-B", "2"), ("X-A", "1"), ("User-Agent", "t")];
    for path in ["/get?x=1&y=2", "/h1/etag/test", "/anything/foo", "/stream/5", "/links/10/5", "/gzip", "/brotli", "/cookies", "/h1/status/404"] {
        let a = respond(table.dispatch(&request("GET", path, &hs, "HTTP/1.1")));
        let b = respond(table.dispatch(&request("GET", path, &hs, "HTTP/1.1")));
        assert!(same(&a, &b), "{}", path);
    }
}

#[test]
fn query_parsing_overwrites_and_defaults() {
    let q = parse_query("a=1&b&a=2&c=x=y");
    assert_eq!(
        q,
        vec![
            ("a".to_string(), "2".to_string()),
            ("b".to_string(), "".to_string()),
            ("c".to_string(), "x=y".to_string()),
        ]
    );
    assert_eq!(query_part("/get?x=1?y"), "x=1");
    assert_eq!(query_part("/get"), "");
}

#[test]
fn paths_and_prefixes() {
    assert_eq!(protocol_prefix("/h3/redirect/2"), "/h3");
    assert_eq!(protocol_prefix("/redirect/2"), "");
    assert_eq!(
        path_segments("/h1/basic-auth/user/pass?x", "basic-auth", 2),
        Some(vec!["user".to_string(), "pass".to_string()])
    );
    assert_eq!(path_segments("/basic-auth//pass", "basic-auth", 2), None);
    assert_eq!(path_tail("/etag/a/b?c", "etag"), Some("a/b?c".to_string()));
    assert_eq!(path_tail("/etag/", "etag"), None);
}

#[test]
fn client_address_and_headers() {
    let hs = vec![("x-real-ip".to_string(), "10.0.0.2".to_string())];
    assert_eq!(get_client_ip(&hs), Some("10.0.0.2".to_string()));
    let hs = vec![("X-Forwarded-For".to_string(), " 1.2.3.4 , 5.6.7.8".to_string())];
    assert_eq!(get_client_ip(&hs), Some("1.2.3.4".to_string()));
    assert_eq!(header_value(&hs, "x-FORWARDED-for"), Some(" 1.2.3.4 , 5.6.7.8".to_string()));
    let r = ip_handler(&request("GET", "/ip", &[], "HTTP/1.1"));
    assert_eq!(body_text(&r), "{\"origin\":\"127.0.0.1\"}");
    let r = user_agent_handler(&request("GET", "/user-agent", &[], "HTTP/1.1"));
    assert_eq!(body_text(&r), "{\"user-agent\":\"Unknown\"}");
}

#[test]
fn json_echo_text() {
    let r = get_handler(&request("GET", "/get?a=1", &[("X-Forwarded-For", "9.9.9.9")], "HTTP/1.1"));
    assert_eq!(
        body_text(&r),
        "{\"args\":{\"a\":\"1\"},\"headers\":{\"X-Forwarded-For\":\"9.9.9.9\"},\"url\":\"https://httpbin.org/get?a=1\",\"origin\":\"9.9.9.9\"}"
    );
    assert_eq!(json_string("a\"b\\c\n\u{1}").iter().collect::<String>(), "\"a\\\"b\\\\c\\n\\u0001\"");
    let m = vec![("k".to_string(), "v\"".to_string())];
    assert_eq!(json_map(&m).iter().collect::<String>(), "{\"k\":\"v\\\"\"}");
}

#[test]
fn cookies_parsing_and_setting() {
    let c = parse_cookies(&vec![("Cookie".to_string(), "foo=bar; baz = qux ;broken; foo=again".to_string())]);
    assert_eq!(c, vec![("foo".to_string(), "again".to_string()), ("baz".to_string(), "qux".to_string())]);
    let r = cookies_handler(&request("GET", "/cookies", &[("Cookie", "a=1")], "HTTP/1.1"));
    assert_eq!(body_text(&r), "{\"cookies\":{\"a\":\"1\"}}");
    let r = cookies_set_specific_handler(&request("GET", "/cookies/set/session/abc123", &[], "HTTP/1.1"));
    assert_eq!(r.status, 302);
    assert_eq!(r.header("Set-Cookie"), Some("session=abc123".to_string()));
    assert_eq!(r.header("Location"), Some("/cookies".to_string()));
}

#[test]
fn byte_generators() {
    let r = stream_bytes_handler(&request("GET", "/stream-bytes/512", &[], "HTTP/1.1"));
    assert_eq!(r.body.len(), 512);
    let r = stream_bytes_handler(&request("GET", "/stream-bytes/100000000000000000000", &[], "HTTP/1.1"));
    assert_eq!(r.body.len(), 102400);
    let r = drip_handler(&request("GET", "/drip?numbytes=7&duration=1", &[], "HTTP/1.1"));
    assert_eq!(r.body.len(), 7);
    let r = drip_handler(&request("GET", "/drip", &[], "HTTP/1.1"));
    assert_eq!(r.body.len(), 10);
    let r = links_handler(&request("GET", "/links/2/5", &[], "HTTP/1.1"));
    assert!(body_text(&r).contains("<a href=\"/links/2/6\">Link 6</a><br>\n</body>"));
}

#[test]
fn compression_round_trips() {
    let req = request("GET", "/gzip", &[], "HTTP/1.1");
    let plain = get_sample_data(&req);
    let mut out = Vec::new();
    flate2::read::GzDecoder::new(&gzip_handler(&req).body[..]).read_to_end(&mut out).unwrap();
    assert_eq!(out, plain);
    let mut out = Vec::new();
    flate2::read::DeflateDecoder::new(&deflate_handler(&req).body[..]).read_to_end(&mut out).unwrap();
    assert_eq!(out, plain);
    let mut out = Vec::new();
    brotli::Decompressor::new(&brotli_handler(&req).body[..], 4096).read_to_end(&mut out).unwrap();
    assert_eq!(out, plain);
    assert!(String::from_utf8(plain).unwrap().starts_with("{\"brotli\":true,\"deflated\":true,\"gzipped\":true"));
}

#[test]
fn base64_and_uuid() {
    let r = base64_handler(&request("GET", "/base64/%%%", &[], "HTTP/1.1"));
    assert_eq!(r.status, 400);
    assert_eq!(body_text(&r), "Invalid base64");
    let r = uuid_handler(&request("GET", "/uuid", &[], "HTTP/1.1"));
    let t = body_text(&r);
    assert_eq!(t.len(), "{\"uuid\":\"\"}".len() + 36);
    assert_eq!(&t[9 + 14..9 + 15], "4");
}

#[test]
fn text_helpers() {
    assert_eq!(parse_uint_chars(&chars_of("+42"), 100), Some(42));
    assert_eq!(parse_uint_chars(&chars_of("101"), 100), None);
    assert_eq!(parse_uint_chars(&chars_of("4a"), 100), None);
    assert_eq!(trim_chars(&chars_of("\u{3000} a b\t")).iter().collect::<String>(), "a b");
    assert_eq!(utf8_bytes(&chars_of("é€😀")), "é€😀".as_bytes().to_vec());
}

#[test]
fn path_templates() {
    assert_eq!(convert_path_to_pattern("/status/{codes}"), "/status/:codes");
    assert_eq!(convert_path_to_pattern("/digest-auth/{qop}/{user}/{passwd}/{algorithm}"), "/digest-auth/:qop/:user/:passwd/:algorithm");
    assert_eq!(convert_path_to_pattern("/x/{other}/{n}"), "/x/{other}/:n");
    assert_eq!(convert_path_to_pattern("{code"), "{code");
}

#[test]
fn registration_per_class() {
    let mut t = RouteTable::new();
    register_h1_mocks(&mut t);
    let n = t.len();
    assert!(n > 100);
    for i in 0..n {
        let r = t.route(i);
        assert!(r.path.starts_with("/h1/"));
        assert_eq!(r.class, RouteClass::H1Only);
    }
    register_h3_mocks(&mut t);
    assert_eq!(t.len(), 2 * n);
    assert_eq!(t.route(n).class, RouteClass::H3Only);
    register_any_protocol_mocks(&mut t);
    assert_eq!(t.len(), 3 * n);
    assert_eq!(t.route(2 * n).class, RouteClass::Any);
    assert_eq!(t.route(2 * n).path, "/bearer");
    register_h1_mocks(&mut t);
    assert_eq!(t.len(), 3 * n);
}

#[test]
fn image_choice_ignores_case() {
    let r = image_handler(&request("GET", "/image", &[("accept", "IMAGE/SVG+XML")], "HTTP/1.1"));
    assert_eq!(r.header("Content-Type"), Some("image/svg+xml".to_string()));
    let r = image_handler(&request("GET", "/image", &[("Accept", "Image/JPEG")], "HTTP/1.1"));
    assert_eq!(r.header("Content-Type"), Some("image/jpeg".to_string()));
    let r = image_handler(&request("GET", "/image", &[], "HTTP/1.1"));
    assert_eq!(r.header("Content-Type"), Some("image/png".to_string()));
}

#[test]
fn prefixed_digest_route_challenges() {
    let table = RouteTable::standard();
    for (path, version) in [("/h1/digest-auth/auth/user/pass", "HTTP/1.1"), ("/h2/digest-auth/auth-int/admin/admin", "HTTP/2.0"), ("/digest-auth/auth/user/pass", "HTTP/3.0")] {
        let r = respond(table.dispatch(&request("GET", path, &[], version)));
        assert_eq!(r.status, 401, "{}", path);
        let c = r.header("WWW-Authenticate").unwrap();
        assert!(c.starts_with("Digest realm=\"Fake Realm\""));
        assert!(c.contains("qop=\"auth"));
    }
}

#[test]
fn decoded_results_to_answers() {
    assert!(credentials_match(b"user:pass", "user", "pass"));
    assert!(!credentials_match(b"user:pass:x", "user", "pass"));
    assert!(!credentials_match(b"a:b:c", "a:b", "c"));
    let r = base64_answer(Some("hi".to_string()));
    assert_eq!((r.status, body_text(&r)), (200, "hi".to_string()));
    let r = base64_answer(None);
    assert_eq!((r.status, body_text(&r)), (400, "Invalid base64".to_string()));
    let r = image_for_accept(&chars_of("text/html, image/jpeg"));
    assert_eq!(r.header("Content-Type"), Some("image/jpeg".to_string()));
    let r = image_for_accept(&chars_of("IMAGE/WEBP"));
    assert_eq!(r.header("Content-Type"), Some("image/png".to_string()));
}

#[test]
fn link_count_saturates() {
    let r = links_handler(&request("GET", "/links/100000000000000000000/0", &[], "HTTP/1.1"));
    assert_eq!(body_text(&r).matches("<a href").count(), 200);
    let r = links_handler(&request("GET", "/links/x", &[], "HTTP/1.1"));
    assert_eq!(body_text(&r).matches("<a href").count(), 10);
}

#[test]
fn any_protocol_routes_pass_every_protocol() {
    let mut t = RouteTable::new();
    register_any_protocol_mocks(&mut t);
    for i in 0..t.len() {
        assert_eq!(t.route(i).class, RouteClass::Any);
    }
    for v in ["HTTP/1.1", "HTTP/2.0", "HTTP/3.0"] {
        assert_eq!(respond(t.dispatch(&request("GET", "/status/418", &[], v))).status, 418);
    }
}

#[test]
fn cookie_delete_is_deterministic() {
    let req = request("GET", "/cookies/delete?foo&baz", &[], "HTTP/1.1");
    let a = cookies_delete_handler(&req);
    let b = cookies_delete_handler(&req);
    assert!(same(&a, &b));
    assert_eq!(a.status, 302);
    assert_eq!(a.header("Location"), Some("/cookies".to_string()));
    assert_eq!(a.header("Set-Cookie"), Some("baz=deleted; Max-Age=0".to_string()));
}

#[test]
fn uuid_text_form() {
    let r = uuid_handler(&request("GET", "/uuid", &[], "HTTP/1.1"));
    let t = body_text(&r);
    let u: Vec<char> = t[9..45].chars().collect();
    for (i, c) in u.iter().enumerate() {
        if [8, 13, 18, 23].contains(&i) {
            assert_eq!(*c, '-');
        } else {
            assert!(c.is_ascii_digit() || ('a'..='f').contains(c));
        }
    }
}
