use base64::Engine;
use httpbin_core::auth::{
    basic_auth_handler, bearer_handler, digest_auth_handler, hidden_basic_auth_handler,
};
use httpbin_core::bridge::decode_base64;
use httpbin_core::caching::{cache_handler, cache_n_handler, etag_handler};
use httpbin_core::compression::{brotli_handler, deflate_handler, gzip_handler};
use httpbin_core::content::{
    html_handler, image_handler, image_jpeg_handler, image_png_handler, image_svg_handler,
    json_handler, robots_txt_handler, xml_handler, forms_post_handler,
};
use httpbin_core::cookies::{cookies_delete_handler, cookies_handler, cookies_set_handler};
use httpbin_core::echo::{
    anything_handler, anything_path_handler, base64_handler, get_handler, headers_handler,
    post_handler, response_headers_handler, uuid_handler,
};
use httpbin_core::params::{get_client_ip, parse_query, path_number};
use httpbin_core::redirect::{redirect_handler, redirect_to_handler};
use httpbin_core::status::status_handler;
use httpbin_core::streaming::{bytes_handler, links_handler, range_handler, stream_handler};
use httpbin_core::types::Request;

fn request(method: &str, path: &str, headers: &[(&str, &str)], version: &str) -> Request {
    Request {
        method: method.to_string(),
        path: path.to_string(),
        headers: headers.iter().map(|(k, v)| (k.to_string(), v.to_string())).collect(),
        http_version: version.to_string(),
    }
}

fn lookup(pairs: &[(String, String)], key: &str) -> Option<String> {
    pairs.iter().find(|(k, _)| k == key).map(|(_, v)| v.clone())
}

#[test]
fn test_anything_handler() {
    let req = request("POST", "/anything?foo=bar", &[], "HTTP/1.1");
    let response = anything_handler(&req);
    assert_eq!(response.status, 200);
}

#[test]
fn test_anything_path_handler() {
    let req = request("GET", "/anything/some/path", &[], "HTTP/1.1");
    let response = anything_path_handler(&req);
    assert_eq!(response.status, 200);
}

#[test]
fn test_basic_auth_success() {
    let req = request("GET", "/basic-auth/user/pass", &[("Authorization", "Basic dXNlcjpwYXNz")], "HTTP/1.1");
    let response = basic_auth_handler(&req);
    assert_eq!(response.status, 200);
}

#[test]
fn test_basic_auth_failure() {
    let req = request("GET", "/basic-auth/user/pass", &[], "HTTP/1.1");
    let response = basic_auth_handler(&req);
    assert_eq!(response.status, 401);
    assert!(response.has_header("WWW-Authenticate"));
}

#[test]
fn test_hidden_basic_auth_failure() {
    let req = request("GET", "/hidden-basic-auth/user/pass", &[], "HTTP/1.1");
    let response = hidden_basic_auth_handler(&req);
    assert_eq!(response.status, 404);
}

#[test]
fn test_bearer_auth_success() {
    let req = request("GET", "/bearer", &[("Authorization", "Bearer mytoken123")], "HTTP/1.1");
    let response = bearer_handler(&req);
    assert_eq!(response.status, 200);
}

#[test]
fn test_bearer_auth_failure() {
    let req = request("GET", "/bearer", &[], "HTTP/1.1");
    let response = bearer_handler(&req);
    assert_eq!(response.status, 401);
}

#[test]
fn test_digest_auth_challenge() {
    let req = request("GET", "/digest-auth/auth/user/pass", &[], "HTTP/1.1");
    let response = digest_auth_handler(&req);
    assert_eq!(response.status, 401);
    assert!(response.has_header("WWW-Authenticate"));
}

#[test]
fn test_cache_handler_no_cache() {
    let req = request("GET", "/cache", &[], "HTTP/1.1");
    let response = cache_handler(&req);
    assert_eq!(response.status, 200);
    assert!(response.has_header("ETag"));
}

#[test]
fn test_cache_handler_with_cache() {
    let req = request("GET", "/cache", &[("If-None-Match", "\"sample-etag\"")], "HTTP/1.1");
    let response = cache_handler(&req);
    assert_eq!(response.status, 304);
}

#[test]
fn test_cache_n_handler() {
    let req = request("GET", "/cache/3600", &[], "HTTP/1.1");
    let response = cache_n_handler(&req);
    assert_eq!(response.status, 200);
    assert_eq!(response.header("Cache-Control"), Some("public, max-age=3600".to_string()));
}

#[test]
fn test_etag_handler() {
    let req = request("GET", "/etag/test123", &[], "HTTP/1.1");
    let response = etag_handler(&req);
    assert_eq!(response.status, 200);
    assert_eq!(response.header("ETag"), Some("\"test123\"".to_string()));
}

#[test]
fn test_gzip_handler() {
    let req = request("GET", "/gzip", &[], "HTTP/1.1");
    let response = gzip_handler(&req);
    assert_eq!(response.status, 200);
    assert_eq!(response.header("Content-Encoding"), Some("gzip".to_string()));
    assert!(!response.body.is_empty());
}

#[test]
fn test_deflate_handler() {
    let req = request("GET", "/deflate", &[], "HTTP/1.1");
    let response = deflate_handler(&req);
    assert_eq!(response.status, 200);
    assert_eq!(response.header("Content-Encoding"), Some("deflate".to_string()));
    assert!(!response.body.is_empty());
}

#[test]
fn test_brotli_handler() {
    let req = request("GET", "/brotli", &[], "HTTP/1.1");
    let response = brotli_handler(&req);
    assert_eq!(response.status, 200);
    assert_eq!(response.header("Content-Encoding"), Some("br".to_string()));
    assert!(!response.body.is_empty());
}

#[test]
fn test_cookies_handler() {
    let req = request("GET", "/cookies", &[("Cookie", "foo=bar; baz=qux")], "HTTP/1.1");
    let response = cookies_handler(&req);
    assert_eq!(response.status, 200);
}

#[test]
fn test_cookies_set_handler() {
    let req = request("GET", "/cookies/set?foo=bar&baz=qux", &[], "HTTP/1.1");
    let response = cookies_set_handler(&req);
    assert_eq!(response.status, 302);
    assert!(response.has_header("Set-Cookie"));
}

#[test]
fn test_cookies_delete_handler() {
    let req = request("GET", "/cookies/delete?foo&baz", &[], "HTTP/1.1");
    let response = cookies_delete_handler(&req);
    assert_eq!(response.status, 302);
}

#[test]
fn test_forms_post_handler() {
    let req = request("GET", "/forms/post", &[], "HTTP/1.1");
    let response = forms_post_handler(&req);
    assert_eq!(response.status, 200);
    let body = String::from_utf8(response.body).unwrap();
    assert!(body.contains("<form"));
    assert!(body.contains("method=\"POST\""));
}

#[test]
fn test_response_headers_handler() {
    let req = request(
        "GET",
        "/response-headers?X-Custom-Header=value&X-Another=test",
        &[],
        "HTTP/1.1",
    );
    let response = response_headers_handler(&req);
    assert_eq!(response.status, 200);
    assert_eq!(response.header("X-Custom-Header"), Some("value".to_string()));
    assert_eq!(response.header("X-Another"), Some("test".to_string()));
}

#[test]
fn test_get_handler() {
    let req = request("GET", "/get?foo=bar", &[], "HTTP/1.1");
    let response = get_handler(&req);
    assert_eq!(response.status, 200);
    assert!(response.header("Content-Type").unwrap().contains("json"));
}

#[test]
fn test_post_handler() {
    let req = request("POST", "/post", &[], "HTTP/1.1");
    let response = post_handler(&req);
    assert_eq!(response.status, 200);
}

#[test]
fn test_image_png_handler() {
    let req = request("GET", "/image/png", &[], "HTTP/1.1");
    let response = image_png_handler(&req);
    assert_eq!(response.status, 200);
    assert_eq!(response.header("Content-Type"), Some("image/png".to_string()));
}

#[test]
fn test_image_jpeg_handler() {
    let req = request("GET", "/image/jpeg", &[], "HTTP/1.1");
    let response = image_jpeg_handler(&req);
    assert_eq!(response.status, 200);
    assert_eq!(response.header("Content-Type"), Some("image/jpeg".to_string()));
}

#[test]
fn test_image_svg_handler() {
    let req = request("GET", "/image/svg", &[], "HTTP/1.1");
    let response = image_svg_handler(&req);
    assert_eq!(response.status, 200);
    assert_eq!(response.header("Content-Type"), Some("image/svg+xml".to_string()));
}

#[test]
fn test_image_handler_with_accept() {
    let req = request("GET", "/image", &[("Accept", "image/webp")], "HTTP/1.1");
    let response = image_handler(&req);
    assert_eq!(response.status, 200);
    assert_eq!(response.header("Content-Type"), Some("image/webp".to_string()));
}

#[test]
fn test_headers_handler() {
    let req = request("GET", "/headers", &[("X-Test", "value")], "HTTP/1.1");
    let response = headers_handler(&req);
    assert_eq!(response.status, 200);
}

#[test]
fn test_uuid_handler() {
    let req = request("GET", "/uuid", &[], "HTTP/1.1");
    let response = uuid_handler(&req);
    assert_eq!(response.status, 200);
}

#[test]
fn test_base64_handler() {
    let req = request("GET", "/base64/SGVsbG8sIFdvcmxkIQ==", &[], "HTTP/1.1");
    let response = base64_handler(&req);
    assert_eq!(response.status, 200);
    let body = String::from_utf8(response.body).unwrap();
    assert_eq!(body, "Hello, World!");
}

#[test]
fn test_redirect_handler() {
    let req = request("GET", "/redirect/3", &[], "HTTP/1.1");
    let response = redirect_handler(&req);
    assert_eq!(response.status, 302);
    assert_eq!(response.header("Location"), Some("/redirect/2".to_string()));
}

#[test]
fn test_redirect_handler_final() {
    let req = request("GET", "/redirect/1", &[], "HTTP/1.1");
    let response = redirect_handler(&req);
    assert_eq!(response.status, 302);
    assert_eq!(response.header("Location"), Some("/get".to_string()));
}

#[test]
fn test_redirect_to_handler() {
    let req = request("GET", "/redirect-to?url=https://example.com&status_code=301", &[], "HTTP/1.1");
    let response = redirect_to_handler(&req);
    assert_eq!(response.status, 301);
    assert_eq!(response.header("Location"), Some("https://example.com".to_string()));
}

#[test]
fn test_json_handler() {
    let req = request("GET", "/json", &[], "HTTP/1.1");
    let response = json_handler(&req);
    assert_eq!(response.status, 200);
    assert!(response.header("Content-Type").unwrap().contains("json"));
}

#[test]
fn test_html_handler() {
    let req = request("GET", "/html", &[], "HTTP/1.1");
    let response = html_handler(&req);
    assert_eq!(response.status, 200);
    assert!(response.header("Content-Type").unwrap().contains("html"));
}

#[test]
fn test_xml_handler() {
    let req = request("GET", "/xml", &[], "HTTP/1.1");
    let response = xml_handler(&req);
    assert_eq!(response.status, 200);
    assert!(response.header("Content-Type").unwrap().contains("xml"));
}

#[test]
fn test_robots_txt_handler() {
    let req = request("GET", "/robots.txt", &[], "HTTP/1.1");
    let response = robots_txt_handler(&req);
    assert_eq!(response.status, 200);
    let body = String::from_utf8(response.body).unwrap();
    assert!(body.contains("User-agent"));
}

#[test]
fn test_status_200() {
    let req = request("GET", "/status/200", &[], "HTTP/1.1");
    let response = status_handler(&req);
    assert_eq!(response.status, 200);
}

#[test]
fn test_status_404() {
    let req = request("GET", "/status/404", &[], "HTTP/1.1");
    let response = status_handler(&req);
    assert_eq!(response.status, 404);
}

#[test]
fn test_status_with_h2_prefix() {
    let req = request("GET", "/h2/status/200", &[], "HTTP/2");
    let response = status_handler(&req);
    assert_eq!(response.status, 200);
}

#[test]
fn test_invalid_status_code() {
    let req = request("GET", "/status/999", &[], "HTTP/1.1");
    let response = status_handler(&req);
    assert_eq!(response.status, 400);
}

#[test]
fn test_bytes_handler() {
    let req = request("GET", "/bytes/100", &[], "HTTP/1.1");
    let response = bytes_handler(&req);
    assert_eq!(response.status, 200);
    assert_eq!(response.body.len(), 100);
}

#[test]
fn test_stream_handler() {
    let req = request("GET", "/stream/5", &[], "HTTP/1.1");
    let response = stream_handler(&req);
    assert_eq!(response.status, 200);
    let body = String::from_utf8(response.body).unwrap();
    assert_eq!(body.lines().count(), 5);
}

#[test]
fn test_range_handler() {
    let req = request("GET", "/range/1024", &[("Range", "bytes=0-99")], "HTTP/1.1");
    let response = range_handler(&req);
    assert_eq!(response.status, 206);
    assert_eq!(response.body.len(), 100);
}

#[test]
fn test_links_handler() {
    let req = request("GET", "/links/5/0", &[], "HTTP/1.1");
    let response = links_handler(&req);
    assert_eq!(response.status, 200);
    let body = String::from_utf8(response.body).unwrap();
    assert!(body.contains("<a href"));
}

#[test]
fn test_extract_param() {
    let result = path_number("/status/200", "status", 65535);
    assert_eq!(result, Some(200));

    let result = path_number("/status/abc", "status", 65535);
    assert_eq!(result, None);
}

#[test]
fn test_parse_query() {
    let result = parse_query("foo=bar&baz=qux");
    assert_eq!(lookup(&result, "foo"), Some("bar".to_string()));
    assert_eq!(lookup(&result, "baz"), Some("qux".to_string()));

    let result = parse_query("");
    assert!(result.is_empty());
}

#[test]
fn test_get_client_ip() {
    let mut headers = vec![("X-Forwarded-For".to_string(), "192.168.1.1".to_string())];
    assert_eq!(get_client_ip(&headers), Some("192.168.1.1".to_string()));

    headers.clear();
    assert_eq!(get_client_ip(&headers), None);
}

#[test]
fn test_base64() {
    let data = b"Hello, World!";
    let encoded = base64::engine::general_purpose::STANDARD.encode(data);
    let decoded = decode_base64(&encoded).unwrap();
    assert_eq!(decoded, data);
}
