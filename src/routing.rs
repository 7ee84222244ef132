use vstd::prelude::*;

use crate::auth::{basic_auth_handler, basic_auth_view, bearer_handler, bearer_view, digest_answer, digest_auth_algorithm_handler, digest_auth_handler, hidden_basic_auth_handler, json_view};
use crate::caching::{cache_handler, cache_n_handler, cache_n_view, cache_view, etag_handler, etag_view};
use crate::compression::{brotli_handler, deflate_handler, encoded_view, gzip_handler, sample_json};
use crate::bridge::{is_uuid_v4_text, brotli_of, deflate_of, gzip_of};
use crate::content::{DENY_PAGE, FORM_PAGE, HTML_PAGE, JSON_SAMPLE, ROBOTS_TXT, SVG_IMAGE, UTF8_PAGE, XML_PAGE, body_view, contains_text, deny_handler, encoding_utf8_handler, forms_post_handler, has_infix, html_handler, image_handler, image_jpeg_handler, image_png_handler, image_svg_handler, image_view, image_webp_handler, jpeg_bytes, json_handler, png_bytes, robots_txt_handler, webp_bytes, xml_handler};
use crate::cookies::{cookies_delete_handler, cookies_delete_view, cookies_handler, cookies_set_handler, cookies_set_specific_handler, cookies_set_specific_view, cookies_set_view, cookies_view};
use crate::delay::{delay_of, delay_response, delay_seconds};
use crate::echo::{anything_handler, anything_json, base64_handler, base64_view, delete_handler, get_handler, headers_handler, ip_handler, method_json, origin_of, patch_handler, post_handler, put_handler, response_headers_handler, response_headers_view, single_json, user_agent_handler, user_agent_of, uuid_handler};
use crate::json::{json_object, json_text_map};
use crate::params::{has_proto_prefix, span, span_len, unprefixed};
use crate::redirect::{absolute_redirect_handler, redirect_handler, redirect_to_handler, redirect_to_view, redirect_view, relative_redirect_handler};
use crate::status::{status_handler, status_view};
use crate::streaming::{byte_count, bytes_handler, bytes_view, drip_count, drip_handler, links_handler, links_view, range_handler, range_view, stream_bytes_handler, stream_handler, stream_view};
use crate::text::{chars_eq, chars_of, decimal, has_prefix, push_all, push_decimal, push_str, slice_chars, split, split_chars, string_of, strip_start_len, utf8};
use crate::types::{Protocol, Request, RequestView, Response, ResponseView};

verus! {

/// The protocol a route requires.
#[derive(Clone, Copy, Debug, PartialEq, Eq, Structural)]
pub enum RouteClass {
    Any,
    H1Only,
    H2Only,
    H3Only,
}

/// The behaviour behind a route.
#[derive(Clone, Copy, Debug, PartialEq, Eq, Structural)]
pub enum Handler {
    Status,
    Get,
    Post,
    Put,
    Patch,
    Delete,
    Headers,
    UserAgent,
    Ip,
    Uuid,
    Base64,
    Redirect,
    RelativeRedirect,
    AbsoluteRedirect,
    RedirectTo,
    Cookies,
    CookiesSet,
    CookiesDelete,
    CookiesSetSpecific,
    Json,
    Html,
    Xml,
    RobotsTxt,
    Deny,
    EncodingUtf8,
    Anything,
    Bytes,
    StreamBytes,
    Stream,
    Drip,
    Range,
    Links,
    Image,
    ImagePng,
    ImageJpeg,
    ImageWebp,
    ImageSvg,
    Gzip,
    Deflate,
    Brotli,
    Cache,
    CacheN,
    Etag,
    BasicAuth,
    HiddenBasicAuth,
    DigestAuth,
    DigestAuthAlgorithm,
    Bearer,
    FormsPost,
    ResponseHeaders,
    Delay,
}

// ---------------------------------------------------------------------------
// Protocols and the protocol guard
// ---------------------------------------------------------------------------

/// The protocol a version text names: `HTTP/1.1`; `HTTP/2.0` or `HTTP/2`;
/// `HTTP/3.0` or `HTTP/3`; anything else is unspecified.
pub open spec fn protocol_spec(v: Seq<char>) -> Protocol {
    if v == "HTTP/1.1"@ {
        Protocol::H1
    } else if v == "HTTP/2.0"@ || v == "HTTP/2"@ {
        Protocol::H2
    } else if v == "HTTP/3.0"@ || v == "HTTP/3"@ {
        Protocol::H3
    } else {
        Protocol::Unspecified
    }
}

fn is_text(a: &[char], b: &str) -> (r: bool)
    ensures
        r == (a@ == b@),
{
    let bc = chars_of(b);
    chars_eq(a, bc.as_slice())
}

/// The protocol a request was negotiated on, from its version text.
pub fn protocol_of(version: &str) -> (r: Protocol)
    ensures
        r == protocol_spec(version@),
{
    let v = chars_of(version);
    if is_text(v.as_slice(), "HTTP/1.1") {
        Protocol::H1
    } else if is_text(v.as_slice(), "HTTP/2.0") || is_text(v.as_slice(), "HTTP/2") {
        Protocol::H2
    } else if is_text(v.as_slice(), "HTTP/3.0") || is_text(v.as_slice(), "HTTP/3") {
        Protocol::H3
    } else {
        Protocol::Unspecified
    }
}

/// A route of class `Any` admits every protocol; the others only their own.
pub open spec fn gate_spec(class: RouteClass, p: Protocol) -> bool {
    match class {
        RouteClass::Any => true,
        RouteClass::H1Only => p == Protocol::H1,
        RouteClass::H2Only => p == Protocol::H2,
        RouteClass::H3Only => p == Protocol::H3,
    }
}

/// Whether a route of the given class may serve a request on `p`.
pub fn gate_passes(class: RouteClass, p: Protocol) -> (r: bool)
    ensures
        r == gate_spec(class, p),
{
    match class {
        RouteClass::Any => true,
        RouteClass::H1Only => p == Protocol::H1,
        RouteClass::H2Only => p == Protocol::H2,
        RouteClass::H3Only => p == Protocol::H3,
    }
}

/// The fixed answer to a request on the wrong protocol.
pub open spec fn misdirected_view() -> ResponseView {
    ResponseView { status: 421, headers: Seq::empty(), body: utf8("Misdirected Request"@) }
}

/// 421 Misdirected Request.
pub fn misdirected_request() -> (r: Response)
    ensures
        r@ == misdirected_view(),
{
    let t = chars_of("Misdirected Request");
    let r = Response { status: 421, headers: Vec::new(), body: crate::text::utf8_bytes(t.as_slice()) };
    assert(r@.headers =~= Seq::<(Seq<char>, Seq<char>)>::empty());
    r
}

/// The class a literal path belongs to, by its protocol prefix.
pub open spec fn class_of_path(p: Seq<char>) -> RouteClass {
    if has_proto_prefix(p) {
        if p[2] == '1' {
            RouteClass::H1Only
        } else if p[2] == '2' {
            RouteClass::H2Only
        } else {
            RouteClass::H3Only
        }
    } else {
        RouteClass::Any
    }
}

pub fn path_class(p: &[char]) -> (r: RouteClass)
    ensures
        r == class_of_path(p@),
{
    if crate::params::proto_prefix_len(p) == 3 {
        if p[2] == '1' {
            RouteClass::H1Only
        } else if p[2] == '2' {
            RouteClass::H2Only
        } else {
            RouteClass::H3Only
        }
    } else {
        RouteClass::Any
    }
}

// ---------------------------------------------------------------------------
// Which handler serves a literal path
// ---------------------------------------------------------------------------

/// The first segment of a path once the protocol prefix and leading slashes
/// are gone.
pub open spec fn base_of(p: Seq<char>) -> Seq<char> {
    let u = unprefixed(p);
    let t = u.subrange(strip_start_len(u, '/') as int, u.len() as int);
    t.subrange(0, span_len(t, seq!['/']) as int)
}

/// The handler for a literal path, and whether it waits before answering;
/// `None` for a path no handler serves.
pub open spec fn handler_spec(p: Seq<char>) -> (Option<Handler>, bool) {
    let b = base_of(p);
    (handler_of_base(b, p), b == "delay"@)
}

/// The handler that serves base name `b`; `p` tells apart the variants of
/// the cookie, image, cache and digest endpoints.
pub open spec fn handler_of_base(b: Seq<char>, p: Seq<char>) -> Option<Handler> {
    if b == "delay"@ {
        Some(Handler::Delay)
    } else if b == "status"@ {
        Some(Handler::Status)
    } else if b == "get"@ {
        Some(Handler::Get)
    } else if b == "post"@ {
        Some(Handler::Post)
    } else if b == "put"@ {
        Some(Handler::Put)
    } else if b == "patch"@ {
        Some(Handler::Patch)
    } else if b == "delete"@ {
        Some(Handler::Delete)
    } else if b == "headers"@ {
        Some(Handler::Headers)
    } else if b == "user-agent"@ {
        Some(Handler::UserAgent)
    } else if b == "ip"@ {
        Some(Handler::Ip)
    } else if b == "uuid"@ {
        Some(Handler::Uuid)
    } else if b == "base64"@ {
        Some(Handler::Base64)
    } else if b == "redirect"@ {
        Some(Handler::Redirect)
    } else if b == "relative-redirect"@ {
        Some(Handler::RelativeRedirect)
    } else if b == "absolute-redirect"@ {
        Some(Handler::AbsoluteRedirect)
    } else if b == "redirect-to"@ {
        Some(Handler::RedirectTo)
    } else if b == "cookies"@ {
        Some(cookie_handler_spec(p))
    } else if b == "json"@ {
        Some(Handler::Json)
    } else if b == "html"@ {
        Some(Handler::Html)
    } else if b == "xml"@ {
        Some(Handler::Xml)
    } else if b == "robots.txt"@ {
        Some(Handler::RobotsTxt)
    } else if b == "deny"@ {
        Some(Handler::Deny)
    } else if b == "encoding"@ {
        Some(Handler::EncodingUtf8)
    } else if b == "anything"@ {
        Some(Handler::Anything)
    } else if b == "bytes"@ {
        Some(Handler::Bytes)
    } else if b == "stream-bytes"@ {
        Some(Handler::StreamBytes)
    } else if b == "stream"@ {
        Some(Handler::Stream)
    } else if b == "drip"@ {
        Some(Handler::Drip)
    } else if b == "range"@ {
        Some(Handler::Range)
    } else if b == "links"@ {
        Some(Handler::Links)
    } else if b == "image"@ {
        Some(image_handler_spec(p))
    } else if b == "gzip"@ {
        Some(Handler::Gzip)
    } else if b == "deflate"@ {
        Some(Handler::Deflate)
    } else if b == "brotli"@ {
        Some(Handler::Brotli)
    } else if b == "cache"@ {
        Some(cache_handler_spec(p))
    } else if b == "etag"@ {
        Some(Handler::Etag)
    } else if b == "basic-auth"@ {
        Some(Handler::BasicAuth)
    } else if b == "hidden-basic-auth"@ {
        Some(Handler::HiddenBasicAuth)
    } else if b == "digest-auth"@ {
        Some(digest_handler_spec(p))
    } else if b == "bearer"@ {
        Some(Handler::Bearer)
    } else if b == "forms"@ {
        Some(Handler::FormsPost)
    } else if b == "response-headers"@ {
        Some(Handler::ResponseHeaders)
    } else {
        None
    }
}

/// The base names some handler serves.
pub open spec fn known_base(b: Seq<char>) -> bool {
    ||| b == "delay"@
    ||| b == "status"@
    ||| b == "get"@
    ||| b == "post"@
    ||| b == "put"@
    ||| b == "patch"@
    ||| b == "delete"@
    ||| b == "headers"@
    ||| b == "user-agent"@
    ||| b == "ip"@
    ||| b == "uuid"@
    ||| b == "base64"@
    ||| b == "redirect"@
    ||| b == "relative-redirect"@
    ||| b == "absolute-redirect"@
    ||| b == "redirect-to"@
    ||| b == "cookies"@
    ||| b == "json"@
    ||| b == "html"@
    ||| b == "xml"@
    ||| b == "robots.txt"@
    ||| b == "deny"@
    ||| b == "encoding"@
    ||| b == "anything"@
    ||| b == "bytes"@
    ||| b == "stream-bytes"@
    ||| b == "stream"@
    ||| b == "drip"@
    ||| b == "range"@
    ||| b == "links"@
    ||| b == "image"@
    ||| b == "gzip"@
    ||| b == "deflate"@
    ||| b == "brotli"@
    ||| b == "cache"@
    ||| b == "etag"@
    ||| b == "basic-auth"@
    ||| b == "hidden-basic-auth"@
    ||| b == "digest-auth"@
    ||| b == "bearer"@
    ||| b == "forms"@
    ||| b == "response-headers"@
}

/// A protocol prefix of a literal route: none, or `/h1`, `/h2`, `/h3`.
pub open spec fn prefix_ok(pre: Seq<char>) -> bool {
    pre.len() == 0 || (pre.len() == 3 && pre[0] == '/' && pre[1] == 'h' && '1' <= pre[2] && pre[2]
        <= '3')
}

/// A base name that can stand as the first segment of a route: at least two
/// characters, no `/`, and not itself shaped like a protocol prefix.
pub open spec fn plain_base(b: Seq<char>) -> bool {
    &&& b.len() >= 2
    &&& forall|i: int| 0 <= i < b.len() ==> b[i] != '/'
    &&& !(b[0] == 'h' && '1' <= b[1] && b[1] <= '3')
}

/// `<pre>/<base><tail>`, with `tail` empty or starting with `/`, has base
/// name `base`, a handler when the base name is known, and the class its
/// prefix names: any protocol without one.
pub proof fn lemma_route_path_handled(pre: Seq<char>, base: Seq<char>, tail: Seq<char>)
    requires
        prefix_ok(pre),
        plain_base(base),
        tail.len() == 0 || tail[0] == '/',
        known_base(base),
    ensures
        base_of(pre + seq!['/'] + base + tail) == base,
        handler_spec(pre + seq!['/'] + base + tail).0.is_some(),
        class_of_path(pre + seq!['/'] + base + tail) == (if pre.len() == 0 {
            RouteClass::Any
        } else if pre[2] == '1' {
            RouteClass::H1Only
        } else if pre[2] == '2' {
            RouteClass::H2Only
        } else {
            RouteClass::H3Only
        }),
{
    let p = pre + seq!['/'] + base + tail;
    let u = seq!['/'] + base + tail;
    if pre.len() == 0 {
        assert(p =~= u);
        assert(!crate::params::has_proto_prefix(p)) by {
            assert(p[1] == base[0] && p[2] == base[1]);
        }
        assert(unprefixed(p) =~= u);
    } else {
        assert(crate::params::has_proto_prefix(p)) by {
            assert(p[0] == pre[0] && p[1] == pre[1] && p[2] == pre[2] && p[3] == '/');
        }
        assert(unprefixed(p) =~= u);
    }
    assert(u[0] == '/' && u[1] == base[0]);
    crate::text::lemma_strip_start_len_at(u, '/', 1);
    let t = u.subrange(1, u.len() as int);
    assert(t =~= base + tail);
    assert forall|j: int| 0 <= j < base.len() implies !seq!['/'].contains(#[trigger] t[j]) by {
        assert(t[j] == base[j]);
        if seq!['/'].contains(t[j]) {
            let k = choose|k: int| 0 <= k < 1 && seq!['/'][k] == t[j];
            assert(seq!['/'][k] == '/');
        }
    }
    if base.len() < t.len() {
        assert(t[base.len() as int] == tail[0]);
        assert(seq!['/'][0] == '/');
    }
    crate::params::lemma_span_len(t, seq!['/'], base.len() as int);
    assert(t.subrange(0, base.len() as int) =~= base);
}

/// Which of the cookie endpoints a path names.
pub open spec fn cookie_handler_spec(p: Seq<char>) -> Handler {
    if has_infix(p, "/cookies/set/"@) {
        Handler::CookiesSetSpecific
    } else if has_infix(p, "/cookies/set"@) {
        Handler::CookiesSet
    } else if has_infix(p, "/cookies/delete"@) {
        Handler::CookiesDelete
    } else {
        Handler::Cookies
    }
}

/// Which of the image endpoints a path names.
pub open spec fn image_handler_spec(p: Seq<char>) -> Handler {
    if has_infix(p, "/png"@) {
        Handler::ImagePng
    } else if has_infix(p, "/jpeg"@) {
        Handler::ImageJpeg
    } else if has_infix(p, "/webp"@) {
        Handler::ImageWebp
    } else if has_infix(p, "/svg"@) {
        Handler::ImageSvg
    } else {
        Handler::Image
    }
}

/// `/cache/<n>` or `/cache`.
pub open spec fn cache_handler_spec(p: Seq<char>) -> Handler {
    if has_infix(p, "/cache/"@) {
        Handler::CacheN
    } else {
        Handler::Cache
    }
}

/// The digest endpoint with an algorithm has more than five `/`-pieces once
/// the protocol prefix is gone.
pub open spec fn digest_handler_spec(p: Seq<char>) -> Handler {
    if split(unprefixed(p), '/').len() > 5 {
        Handler::DigestAuthAlgorithm
    } else {
        Handler::DigestAuth
    }
}

fn base_segment(p: &[char]) -> (r: Vec<char>)
    ensures
        r@ == base_of(p@),
{
    let n = crate::params::proto_prefix_len(p);
    let u = slice_chars(p, n, p.len());
    let mut k: usize = 0;
    while k < u.len() && u[k] == '/'
        invariant
            k <= u@.len(),
            forall|j: int| 0 <= j < k ==> u@[j] == '/',
        decreases u@.len() - k,
    {
        k = k + 1;
    }
    proof {
        crate::text::lemma_strip_start_len_at(u@, '/', k as int);
    }
    let t = slice_chars(u.as_slice(), k, u.len());
    let stops = vec!['/'];
    assert(stops@ =~= seq!['/']);
    let m = span(t.as_slice(), stops.as_slice());
    slice_chars(t.as_slice(), 0, m)
}

fn cookie_handler_for(p: &[char]) -> (r: Handler)
    ensures
        r == cookie_handler_spec(p@),
{
    if contains_text(p, "/cookies/set/") {
        Handler::CookiesSetSpecific
    } else if contains_text(p, "/cookies/set") {
        Handler::CookiesSet
    } else if contains_text(p, "/cookies/delete") {
        Handler::CookiesDelete
    } else {
        Handler::Cookies
    }
}

fn image_handler_for(p: &[char]) -> (r: Handler)
    ensures
        r == image_handler_spec(p@),
{
    if contains_text(p, "/png") {
        Handler::ImagePng
    } else if contains_text(p, "/jpeg") {
        Handler::ImageJpeg
    } else if contains_text(p, "/webp") {
        Handler::ImageWebp
    } else if contains_text(p, "/svg") {
        Handler::ImageSvg
    } else {
        Handler::Image
    }
}

/// Which handler serves a literal path, and whether it waits first.
pub fn determine_handler_info(path: &str) -> (r: (Option<Handler>, bool))
    ensures
        r == handler_spec(path@),
{
    let p = chars_of(path);
    let b = base_segment(p.as_slice());
    let b = b.as_slice();
    if is_text(b, "delay") {
        return (Some(Handler::Delay), true);
    }
    let h = if is_text(b, "status") {
        Some(Handler::Status)
    } else if is_text(b, "get") {
        Some(Handler::Get)
    } else if is_text(b, "post") {
        Some(Handler::Post)
    } else if is_text(b, "put") {
        Some(Handler::Put)
    } else if is_text(b, "patch") {
        Some(Handler::Patch)
    } else if is_text(b, "delete") {
        Some(Handler::Delete)
    } else if is_text(b, "headers") {
        Some(Handler::Headers)
    } else if is_text(b, "user-agent") {
        Some(Handler::UserAgent)
    } else if is_text(b, "ip") {
        Some(Handler::Ip)
    } else if is_text(b, "uuid") {
        Some(Handler::Uuid)
    } else if is_text(b, "base64") {
        Some(Handler::Base64)
    } else if is_text(b, "redirect") {
        Some(Handler::Redirect)
    } else if is_text(b, "relative-redirect") {
        Some(Handler::RelativeRedirect)
    } else if is_text(b, "absolute-redirect") {
        Some(Handler::AbsoluteRedirect)
    } else if is_text(b, "redirect-to") {
        Some(Handler::RedirectTo)
    } else if is_text(b, "cookies") {
        Some(cookie_handler_for(p.as_slice()))
    } else if is_text(b, "json") {
        Some(Handler::Json)
    } else if is_text(b, "html") {
        Some(Handler::Html)
    } else if is_text(b, "xml") {
        Some(Handler::Xml)
    } else if is_text(b, "robots.txt") {
        Some(Handler::RobotsTxt)
    } else if is_text(b, "deny") {
        Some(Handler::Deny)
    } else if is_text(b, "encoding") {
        Some(Handler::EncodingUtf8)
    } else if is_text(b, "anything") {
        Some(Handler::Anything)
    } else if is_text(b, "bytes") {
        Some(Handler::Bytes)
    } else if is_text(b, "stream-bytes") {
        Some(Handler::StreamBytes)
    } else if is_text(b, "stream") {
        Some(Handler::Stream)
    } else if is_text(b, "drip") {
        Some(Handler::Drip)
    } else if is_text(b, "range") {
        Some(Handler::Range)
    } else if is_text(b, "links") {
        Some(Handler::Links)
    } else if is_text(b, "image") {
        Some(image_handler_for(p.as_slice()))
    } else if is_text(b, "gzip") {
        Some(Handler::Gzip)
    } else if is_text(b, "deflate") {
        Some(Handler::Deflate)
    } else if is_text(b, "brotli") {
        Some(Handler::Brotli)
    } else if is_text(b, "cache") {
        if contains_text(p.as_slice(), "/cache/") {
            Some(Handler::CacheN)
        } else {
            Some(Handler::Cache)
        }
    } else if is_text(b, "etag") {
        Some(Handler::Etag)
    } else if is_text(b, "basic-auth") {
        Some(Handler::BasicAuth)
    } else if is_text(b, "hidden-basic-auth") {
        Some(Handler::HiddenBasicAuth)
    } else if is_text(b, "digest-auth") {
        let n = crate::params::proto_prefix_len(p.as_slice());
        let u = slice_chars(p.as_slice(), n, p.len());
        let parts = split_chars(u.as_slice(), '/');
        if parts.len() > 5 {
            Some(Handler::DigestAuthAlgorithm)
        } else {
            Some(Handler::DigestAuth)
        }
    } else if is_text(b, "bearer") {
        Some(Handler::Bearer)
    } else if is_text(b, "forms") {
        Some(Handler::FormsPost)
    } else if is_text(b, "response-headers") {
        Some(Handler::ResponseHeaders)
    } else {
        None
    };
    (h, false)
}

// ---------------------------------------------------------------------------
// Invoking a handler
// ---------------------------------------------------------------------------

/// What a handler answers, for the handlers whose answer depends on the
/// request alone; `None` for those that draw random values.
pub open spec fn handler_view(h: Handler, req: RequestView) -> Option<ResponseView> {
    match h {
        Handler::Status => Some(status_view(req)),
        Handler::Get | Handler::Post | Handler::Put | Handler::Patch | Handler::Delete
        | Handler::Delay => Some(json_view(method_json(req))),
        Handler::Headers => Some(json_view(json_object(seq![("headers"@, json_text_map(req.headers))]))),
        Handler::UserAgent => Some(json_view(single_json("user-agent"@, user_agent_of(req.headers)))),
        Handler::Ip => Some(json_view(single_json("origin"@, origin_of(req.headers)))),
        Handler::Base64 => Some(base64_view(req)),
        Handler::Redirect => Some(redirect_view(req, "redirect"@, "redirect"@)),
        Handler::AbsoluteRedirect => Some(redirect_view(req, "absolute-redirect"@, "redirect"@)),
        Handler::RelativeRedirect => Some(
            redirect_view(req, "relative-redirect"@, "relative-redirect"@),
        ),
        Handler::RedirectTo => Some(redirect_to_view(req)),
        Handler::Cookies => Some(cookies_view(req)),
        Handler::CookiesSet => Some(cookies_set_view(req)),
        Handler::CookiesDelete => Some(cookies_delete_view(req)),
        Handler::CookiesSetSpecific => Some(cookies_set_specific_view(req)),
        Handler::Json => Some(body_view(utf8(JSON_SAMPLE@), "application/json"@)),
        Handler::Html => Some(body_view(utf8(HTML_PAGE@), "text/html; charset=utf-8"@)),
        Handler::Xml => Some(body_view(utf8(XML_PAGE@), "application/xml"@)),
        Handler::RobotsTxt => Some(body_view(utf8(ROBOTS_TXT@), "text/plain"@)),
        Handler::Deny => Some(body_view(utf8(DENY_PAGE@), "text/html; charset=utf-8"@)),
        Handler::EncodingUtf8 => Some(body_view(utf8(UTF8_PAGE@), "text/html; charset=utf-8"@)),
        Handler::FormsPost => Some(body_view(utf8(FORM_PAGE@), "text/html; charset=utf-8"@)),
        Handler::Anything => Some(json_view(anything_json(req))),
        Handler::Stream => Some(stream_view(req)),
        Handler::Links => Some(links_view(req)),
        Handler::Image => Some(image_view(req)),
        Handler::ImagePng => Some(body_view(png_bytes(), "image/png"@)),
        Handler::ImageJpeg => Some(body_view(jpeg_bytes(), "image/jpeg"@)),
        Handler::ImageWebp => Some(body_view(webp_bytes(), "image/webp"@)),
        Handler::ImageSvg => Some(body_view(utf8(SVG_IMAGE@), "image/svg+xml"@)),
        Handler::Gzip => Some(encoded_view(gzip_of(utf8(sample_json(req))), "gzip"@)),
        Handler::Deflate => Some(encoded_view(deflate_of(utf8(sample_json(req))), "deflate"@)),
        Handler::Brotli => Some(encoded_view(brotli_of(utf8(sample_json(req))), "br"@)),
        Handler::Cache => Some(cache_view(req)),
        Handler::CacheN => Some(cache_n_view(req)),
        Handler::Etag => Some(etag_view(req)),
        Handler::BasicAuth => Some(basic_auth_view(req, "basic-auth"@, false)),
        Handler::HiddenBasicAuth => Some(basic_auth_view(req, "hidden-basic-auth"@, true)),
        Handler::Bearer => Some(bearer_view(req)),
        Handler::ResponseHeaders => Some(response_headers_view(req)),
        Handler::Uuid | Handler::Bytes | Handler::StreamBytes | Handler::Drip | Handler::Range
        | Handler::DigestAuth | Handler::DigestAuthAlgorithm => None,
    }
}

/// What a handler answers: exactly its answer where that depends on the
/// request alone; for the handlers that draw random values, everything their
/// own contracts fix, whatever was drawn.
pub open spec fn handler_answers(h: Handler, req: RequestView, r: ResponseView) -> bool {
    match h {
        Handler::Uuid => exists|u: Seq<char>|
            is_uuid_v4_text(u) && r == json_view(single_json("uuid"@, u)),
        Handler::Bytes => r == bytes_view(r.body) && r.body.len() == byte_count(req.path, "bytes"@),
        Handler::StreamBytes => r == bytes_view(r.body) && r.body.len() == byte_count(
            req.path,
            "stream-bytes"@,
        ),
        Handler::Drip => r == bytes_view(r.body) && r.body.len() == drip_count(req.path),
        Handler::Range => exists|d: Seq<u8>|
            d.len() == byte_count(req.path, "range"@) && r == range_view(req, d),
        Handler::DigestAuth => digest_answer(req, false, r),
        Handler::DigestAuthAlgorithm => digest_answer(req, true, r),
        _ => handler_view(h, req) == Some(r),
    }
}

/// Runs a handler on a request. The delay handler answers at once here:
/// waiting is the caller's part (see `dispatch`).
pub fn invoke(h: Handler, req: &Request) -> (r: Response)
    ensures
        handler_answers(h, req@, r@),
        handler_view(h, req@) matches Some(v) ==> r@ == v,
{
    match h {
        Handler::Status => status_handler(req),
        Handler::Get => get_handler(req),
        Handler::Post => post_handler(req),
        Handler::Put => put_handler(req),
        Handler::Patch => patch_handler(req),
        Handler::Delete => delete_handler(req),
        Handler::Delay => delay_response(req),
        Handler::Headers => headers_handler(req),
        Handler::UserAgent => user_agent_handler(req),
        Handler::Ip => ip_handler(req),
        Handler::Uuid => uuid_handler(req),
        Handler::Base64 => base64_handler(req),
        Handler::Redirect => redirect_handler(req),
        Handler::AbsoluteRedirect => absolute_redirect_handler(req),
        Handler::RelativeRedirect => relative_redirect_handler(req),
        Handler::RedirectTo => redirect_to_handler(req),
        Handler::Cookies => cookies_handler(req),
        Handler::CookiesSet => cookies_set_handler(req),
        Handler::CookiesDelete => cookies_delete_handler(req),
        Handler::CookiesSetSpecific => cookies_set_specific_handler(req),
        Handler::Json => json_handler(req),
        Handler::Html => html_handler(req),
        Handler::Xml => xml_handler(req),
        Handler::RobotsTxt => robots_txt_handler(req),
        Handler::Deny => deny_handler(req),
        Handler::EncodingUtf8 => encoding_utf8_handler(req),
        Handler::FormsPost => forms_post_handler(req),
        Handler::Anything => anything_handler(req),
        Handler::Bytes => bytes_handler(req),
        Handler::StreamBytes => stream_bytes_handler(req),
        Handler::Stream => stream_handler(req),
        Handler::Drip => drip_handler(req),
        Handler::Range => range_handler(req),
        Handler::Links => links_handler(req),
        Handler::Image => image_handler(req),
        Handler::ImagePng => image_png_handler(req),
        Handler::ImageJpeg => image_jpeg_handler(req),
        Handler::ImageWebp => image_webp_handler(req),
        Handler::ImageSvg => image_svg_handler(req),
        Handler::Gzip => gzip_handler(req),
        Handler::Deflate => deflate_handler(req),
        Handler::Brotli => brotli_handler(req),
        Handler::Cache => cache_handler(req),
        Handler::CacheN => cache_n_handler(req),
        Handler::Etag => etag_handler(req),
        Handler::BasicAuth => basic_auth_handler(req),
        Handler::HiddenBasicAuth => hidden_basic_auth_handler(req),
        Handler::DigestAuth => digest_auth_handler(req),
        Handler::DigestAuthAlgorithm => digest_auth_algorithm_handler(req),
        Handler::Bearer => bearer_handler(req),
        Handler::ResponseHeaders => response_headers_handler(req),
    }
}

// ---------------------------------------------------------------------------
// The route table
// ---------------------------------------------------------------------------

/// A literal route: method, path, the protocol it requires, its handler.
pub struct Route {
    pub method: String,
    pub path: String,
    pub class: RouteClass,
    pub handler: Handler,
}

pub struct RouteView {
    pub method: Seq<char>,
    pub path: Seq<char>,
    pub class: RouteClass,
    pub handler: Handler,
}

impl View for Route {
    type V = RouteView;

    open spec fn view(&self) -> RouteView {
        RouteView {
            method: self.method@,
            path: self.path@,
            class: self.class,
            handler: self.handler,
        }
    }
}

/// Whether a route serves the given method and literal path.
pub open spec fn serves(r: RouteView, method: Seq<char>, path: Seq<char>) -> bool {
    r.method == method && r.path == path
}

/// Routes are well formed: no two serve the same method and path, and each
/// has the class its path's prefix names and the handler its path names.
pub open spec fn routes_wf(rs: Seq<RouteView>) -> bool {
    &&& forall|i: int, j: int|
        0 <= i < j < rs.len() ==> !serves(#[trigger] rs[i], (#[trigger] rs[j]).method, rs[j].path)
    &&& forall|i: int|
        0 <= i < rs.len() ==> (#[trigger] rs[i]).class == class_of_path(rs[i].path)
            && handler_spec(rs[i].path).0 == Some(rs[i].handler)
}

/// The table of literal routes, built once before any request.
pub struct RouteTable {
    routes: Vec<Route>,
}

impl View for RouteTable {
    type V = Seq<RouteView>;

    closed spec fn view(&self) -> Seq<RouteView> {
        self.routes@.map_values(|r: Route| r@)
    }
}

/// What becomes of a request, once a route serves it.
pub enum Action {
    /// No route serves the method and path.
    NotFound,
    /// Send this response.
    Respond(Response),
    /// Wait this many seconds, then send the response.
    DelayThenRespond(u64, Response),
}

/// The path a request is routed by: its text before any `?`.
pub open spec fn route_path(p: Seq<char>) -> Seq<char> {
    split(p, '?')[0]
}

/// What a request to a route comes to: refused by the protocol guard, a wait, or the
/// handler's answer.
pub enum Outcome {
    Misdirected,
    Delayed(nat),
    Handled(Handler),
}

pub open spec fn outcome_spec(route: RouteView, req: RequestView) -> Outcome {
    if !gate_spec(route.class, protocol_spec(req.http_version)) {
        Outcome::Misdirected
    } else if route.handler == Handler::Delay {
        Outcome::Delayed(delay_of(req.path))
    } else {
        Outcome::Handled(route.handler)
    }
}

/// The response a route gives a request, where it depends on the request
/// alone.
pub open spec fn response_spec(route: RouteView, req: RequestView) -> Option<ResponseView> {
    match outcome_spec(route, req) {
        Outcome::Misdirected => Some(misdirected_view()),
        Outcome::Delayed(_) => Some(json_view(method_json(req))),
        Outcome::Handled(h) => handler_view(h, req),
    }
}

impl RouteTable {
    /// An empty table.
    pub fn new() -> (t: RouteTable)
        ensures
            t@ == Seq::<RouteView>::empty(),
            routes_wf(t@),
    {
        let t = RouteTable { routes: Vec::new() };
        assert(t@ =~= Seq::<RouteView>::empty());
        t
    }

    /// The number of routes.
    pub fn len(&self) -> (n: usize)
        ensures
            n == self@.len(),
    {
        self.routes.len()
    }

    /// The route at a position.
    pub fn route(&self, i: usize) -> (r: &Route)
        requires
            i < self@.len(),
        ensures
            r@ == self@[i as int],
    {
        &self.routes[i]
    }

    /// The position of the route serving a method and literal path.
    pub fn find(&self, method: &str, path: &str) -> (r: Option<usize>)
        ensures
            match r {
                Some(i) => i < self@.len() && serves(self@[i as int], method@, path@),
                None => forall|i: int| 0 <= i < self@.len() ==> !serves(#[trigger] self@[i], method@, path@),
            },
    {
        let m = String::from_str(method);
        let p = String::from_str(path);
        let mut i: usize = 0;
        while i < self.routes.len()
            invariant
                i <= self.routes@.len(),
                m@ == method@,
                p@ == path@,
                forall|j: int| 0 <= j < i ==> !serves(#[trigger] self@[j], method@, path@),
            decreases self.routes@.len() - i,
        {
            assert(self@[i as int] == self.routes@[i as int]@);
            if self.routes[i].method == m && self.routes[i].path == p {
                return Some(i);
            }
            i = i + 1;
        }
        None
    }

    /// Adds the route for a method and literal path, its class and handler
    /// taken from the path. Refused, leaving the table as it was, when no
    /// handler serves the path or a route already serves method and path.
    pub fn add(&mut self, method: &str, path: &str) -> (added: bool)
        requires
            routes_wf(old(self)@),
        ensures
            routes_wf(final(self)@),
            added == (handler_spec(path@).0.is_some() && forall|i: int|
                0 <= i < old(self)@.len() ==> !serves(#[trigger] old(self)@[i], method@, path@)),
            added ==> final(self)@ == old(self)@.push(
                RouteView {
                    method: method@,
                    path: path@,
                    class: class_of_path(path@),
                    handler: handler_spec(path@).0.unwrap(),
                },
            ),
            !added ==> final(self)@ == old(self)@,
    {
        let (h, _) = determine_handler_info(path);
        let h = match h {
            Some(h) => h,
            None => {
                return false;
            },
        };
        if self.find(method, path).is_some() {
            return false;
        }
        let pc = chars_of(path);
        let class = path_class(pc.as_slice());
        let ghost before = self@;
        self.routes.push(
            Route { method: String::from_str(method), path: String::from_str(path), class, handler: h },
        );
        assert(self@ =~= before.push(
            RouteView { method: method@, path: path@, class: class_of_path(path@), handler: h },
        ));
        assert forall|i: int, j: int| 0 <= i < j < self@.len() implies !serves(
            #[trigger] self@[i],
            (#[trigger] self@[j]).method,
            self@[j].path,
        ) by {
            if j == before.len() {
                assert(self@[i] == before[i]);
            } else {
                assert(self@[i] == before[i] && self@[j] == before[j]);
            }
        }
        assert forall|i: int| 0 <= i < self@.len() implies (#[trigger] self@[i]).class
            == class_of_path(self@[i].path) && handler_spec(self@[i].path).0 == Some(
            self@[i].handler,
        ) by {
            if i < before.len() {
                assert(self@[i] == before[i]);
            }
        }
        true
    }

    /// Decides what becomes of a request: no route; the fixed 421 when the
    /// route's class does not admit the request's protocol, without running
    /// the handler; a wait and then the echo for the delay routes; otherwise
    /// the handler's answer.
    pub fn dispatch(&self, req: &Request) -> (r: Action)
        requires
            routes_wf(self@),
        ensures
            (r is NotFound) <==> forall|i: int|
                0 <= i < self@.len() ==> !serves(#[trigger] self@[i], req@.method, route_path(req@.path)),
            forall|i: int|
                0 <= i < self@.len() && serves(#[trigger] self@[i], req@.method, route_path(req@.path))
                    ==> match outcome_spec(self@[i], req@) {
                    Outcome::Misdirected => r matches Action::Respond(x) && x@ == misdirected_view(),
                    Outcome::Delayed(s) => r matches Action::DelayThenRespond(d, x) && d == s
                        && x@ == json_view(method_json(req@)),
                    Outcome::Handled(h) => r matches Action::Respond(x) && handler_answers(
                        h,
                        req@,
                        x@,
                    ),
                },
    {
        let pc = chars_of(req.path.as_str());
        let parts = split_chars(pc.as_slice(), '?');
        proof {
            crate::text::lemma_split_nonempty(pc@, '?');
        }
        let p = string_of(parts[0].as_slice());
        match self.find(req.method.as_str(), p.as_str()) {
            None => Action::NotFound,
            Some(i) => {
                let route = &self.routes[i];
                assert(self@[i as int] == route@);
                proof {
                    assert forall|j: int|
                        0 <= j < self@.len() && serves(
                            #[trigger] self@[j],
                            req@.method,
                            route_path(req@.path),
                        ) implies j == i by {
                        if j < i {
                            assert(!serves(self@[j], self@[i as int].method, self@[i as int].path));
                        } else if j > i {
                            assert(!serves(self@[i as int], self@[j].method, self@[j].path));
                        }
                    }
                }
                let p = protocol_of(req.http_version.as_str());
                if !gate_passes(route.class, p) {
                    Action::Respond(misdirected_request())
                } else if route.handler == Handler::Delay {
                    Action::DelayThenRespond(delay_seconds(req), delay_response(req))
                } else {
                    Action::Respond(invoke(route.handler, req))
                }
            },
        }
    }
}

// ---------------------------------------------------------------------------
// Registration
// ---------------------------------------------------------------------------

/// `a` holds the routes of `b`, in order, and maybe more after them.
pub open spec fn extends(a: Seq<RouteView>, b: Seq<RouteView>) -> bool {
    b.len() <= a.len() && a.subrange(0, b.len() as int) == b
}

proof fn lemma_extends_trans(a: Seq<RouteView>, b: Seq<RouteView>, c: Seq<RouteView>)
    requires
        extends(a, b),
        extends(b, c),
    ensures
        extends(a, c),
{
    assert(a.subrange(0, c.len() as int) =~= b.subrange(0, c.len() as int));
}

/// `a` extends `b` with routes whose paths all start with `pre`, all of
/// the class that `pre` names.
pub open spec fn added_under(a: Seq<RouteView>, b: Seq<RouteView>, pre: Seq<char>) -> bool {
    extends(a, b) && forall|i: int|
        b.len() <= i < a.len() ==> has_prefix(#[trigger] a[i].path, pre) && a[i].class == head_class(
            pre,
        )
}

/// The class of the routes under `<prefix>/`: that of protocol `N` for
/// `/hN/`, any protocol otherwise.
pub open spec fn head_class(pre: Seq<char>) -> RouteClass {
    if pre.len() >= 3 && pre[1] == 'h' {
        if pre[2] == '1' {
            RouteClass::H1Only
        } else if pre[2] == '2' {
            RouteClass::H2Only
        } else {
            RouteClass::H3Only
        }
    } else {
        RouteClass::Any
    }
}

proof fn lemma_added_under_trans(a: Seq<RouteView>, b: Seq<RouteView>, c: Seq<RouteView>, pre: Seq<char>)
    requires
        added_under(a, b, pre),
        added_under(b, c, pre),
    ensures
        added_under(a, c, pre),
{
    lemma_extends_trans(a, b, c);
    assert forall|i: int| c.len() <= i < a.len() implies has_prefix(#[trigger] a[i].path, pre)
        && a[i].class == head_class(pre) by {
        if i < b.len() {
            assert(a.subrange(0, b.len() as int)[i] == a[i]);
            assert(b[i] == a[i]);
            assert(c.len() <= i < b.len());
            assert(has_prefix(b[i].path, pre));
            assert(b[i].class == head_class(pre));
        } else {
            assert(b.len() <= i < a.len());
            assert(has_prefix(a[i].path, pre));
            assert(a[i].class == head_class(pre));
        }
    }
}

/// The endpoints without parameters: method, base name, and the rest of
/// the path after the base name (empty for none).
pub open spec fn fixed_endpoints() -> Seq<(Seq<char>, Seq<char>, Seq<char>)> {
    seq![
        ("GET"@, "bearer"@, ""@),
        ("GET"@, "brotli"@, ""@),
        ("GET"@, "cache"@, ""@),
        ("GET"@, "cookies"@, ""@),
        ("GET"@, "cookies"@, "delete"@),
        ("GET"@, "cookies"@, "set"@),
        ("GET"@, "deflate"@, ""@),
        ("DELETE"@, "delete"@, ""@),
        ("GET"@, "deny"@, ""@),
        ("GET"@, "drip"@, ""@),
        ("GET"@, "encoding"@, "utf8"@),
        ("GET"@, "get"@, ""@),
        ("GET"@, "gzip"@, ""@),
        ("GET"@, "headers"@, ""@),
        ("GET"@, "html"@, ""@),
        ("GET"@, "image"@, ""@),
        ("GET"@, "image"@, "jpeg"@),
        ("GET"@, "image"@, "png"@),
        ("GET"@, "image"@, "svg"@),
        ("GET"@, "image"@, "webp"@),
        ("GET"@, "ip"@, ""@),
        ("GET"@, "json"@, ""@),
        ("PATCH"@, "patch"@, ""@),
        ("POST"@, "post"@, ""@),
        ("PUT"@, "put"@, ""@),
        ("GET"@, "redirect-to"@, ""@),
        ("GET"@, "response-headers"@, ""@),
        ("GET"@, "robots.txt"@, ""@),
        ("GET"@, "user-agent"@, ""@),
        ("GET"@, "uuid"@, ""@),
        ("GET"@, "xml"@, ""@),
        ("GET"@, "anything"@, ""@),
    ]
}

/// The numbered endpoints (`GET`): base name and the sample numbers.
pub open spec fn numbered_endpoints() -> Seq<(Seq<char>, Seq<u64>)> {
    seq![
        ("status"@, seq![100u64, 200u64, 201u64, 202u64, 204u64, 301u64, 302u64, 303u64, 304u64, 307u64, 308u64, 400u64, 401u64, 403u64, 404u64, 405u64, 406u64, 408u64, 409u64, 410u64, 418u64, 429u64, 500u64, 501u64, 502u64, 503u64, 504u64]),
        ("bytes"@, seq![1u64, 10u64, 100u64, 256u64, 512u64, 1024u64, 2048u64, 4096u64, 8192u64]),
        ("delay"@, seq![1u64, 2u64, 3u64, 5u64, 10u64]),
        ("stream"@, seq![1u64, 5u64, 10u64, 20u64, 50u64, 100u64]),
        ("stream-bytes"@, seq![100u64, 512u64, 1024u64, 2048u64, 4096u64, 8192u64]),
        ("redirect"@, seq![1u64, 2u64, 3u64, 4u64, 5u64, 6u64, 7u64, 8u64, 9u64, 10u64]),
        ("absolute-redirect"@, seq![1u64, 2u64, 3u64, 4u64, 5u64, 6u64, 7u64, 8u64, 9u64, 10u64]),
        ("relative-redirect"@, seq![1u64, 2u64, 3u64, 4u64, 5u64, 6u64, 7u64, 8u64, 9u64, 10u64]),
        ("cache"@, seq![10u64, 30u64, 60u64, 120u64, 300u64, 600u64, 3600u64]),
        ("range"@, seq![100u64, 256u64, 512u64, 1024u64, 2048u64, 4096u64]),
    ]
}

/// The endpoints with one or two text parameters (`GET`): base name and the
/// sample values, the second left out when empty.
pub open spec fn paired_endpoints() -> Seq<(Seq<char>, Seq<(Seq<char>, Seq<char>)>)> {
    seq![
        ("links"@, seq![("5"@, "0"@), ("5"@, "1"@), ("5"@, "5"@), ("10"@, "0"@), ("10"@, "1"@), ("10"@, "5"@), ("20"@, "0"@), ("20"@, "1"@), ("20"@, "5"@)]),
        ("base64"@, seq![("aGVsbG8="@, ""@), ("dGVzdA=="@, ""@), ("aHR0cGJpbg=="@, ""@), ("SGVsbG8gV29ybGQh"@, ""@)]),
        ("anything"@, seq![("test"@, ""@), ("foo"@, ""@), ("bar"@, ""@), ("hello"@, ""@), ("api"@, ""@), ("v1"@, ""@), ("data"@, ""@)]),
        ("basic-auth"@, seq![("user"@, "pass"@), ("admin"@, "admin"@), ("test"@, "test"@)]),
        ("hidden-basic-auth"@, seq![("user"@, "pass"@), ("admin"@, "admin"@)]),
        ("digest-auth"@, seq![("auth/user"@, "pass"@), ("auth/admin"@, "admin"@), ("auth-int/user"@, "pass"@), ("auth-int/admin"@, "admin"@)]),
        ("cookies"@, seq![("set/session"@, "abc123"@), ("set/foo"@, "bar"@), ("set/test"@, "value"@)]),
        ("etag"@, seq![("test"@, ""@), ("abc123"@, ""@), ("etag1"@, ""@)]),
    ]
}

/// `/<sub>`, or nothing for an empty `sub`.
pub open spec fn sub_path(sub: Seq<char>) -> Seq<char> {
    if sub.len() == 0 {
        Seq::empty()
    } else {
        seq!['/'] + sub
    }
}

pub open spec fn fixed_path(pre: Seq<char>, base: Seq<char>, sub: Seq<char>) -> Seq<char> {
    pre + seq!['/'] + base + sub_path(sub)
}

pub open spec fn numbered_path(pre: Seq<char>, base: Seq<char>, n: u64) -> Seq<char> {
    pre + seq!['/'] + base + (seq!['/'] + decimal(n as nat))
}

pub open spec fn paired_path(pre: Seq<char>, base: Seq<char>, a: Seq<char>, b: Seq<char>) -> Seq<
    char,
> {
    pre + seq!['/'] + base + (seq!['/'] + a + sub_path(b))
}

/// Some route serves the method and path.
pub open spec fn served(rs: Seq<RouteView>, m: Seq<char>, p: Seq<char>) -> bool {
    exists|i: int| 0 <= i < rs.len() && serves(#[trigger] rs[i], m, p)
}

/// Every sample of numbered group `g` is served under the prefix `pre`.
#[verifier::opaque]
pub open spec fn numbered_served(rs: Seq<RouteView>, pre: Seq<char>, g: int) -> bool {
    forall|k: int|
        0 <= k < numbered_endpoints()[g].1.len() ==> served(
            rs,
            "GET"@,
            numbered_path(pre, numbered_endpoints()[g].0, #[trigger] numbered_endpoints()[g].1[k]),
        )
}

/// Every sample of paired group `g` is served under the prefix `pre`.
#[verifier::opaque]
pub open spec fn paired_served(rs: Seq<RouteView>, pre: Seq<char>, g: int) -> bool {
    forall|k: int|
        0 <= k < paired_endpoints()[g].1.len() ==> served(
            rs,
            "GET"@,
            paired_path(
                pre,
                paired_endpoints()[g].0,
                (#[trigger] paired_endpoints()[g].1[k]).0,
                paired_endpoints()[g].1[k].1,
            ),
        )
}

/// Every endpoint without parameters is served under the prefix `pre`.
pub open spec fn fixed_served(rs: Seq<RouteView>, pre: Seq<char>) -> bool {
    forall|k: int|
        0 <= k < fixed_endpoints().len() ==> served(
            rs,
            (#[trigger] fixed_endpoints()[k]).0,
            fixed_path(pre, fixed_endpoints()[k].1, fixed_endpoints()[k].2),
        )
}

/// Every enumerated endpoint is served under the prefix `pre`.
pub open spec fn class_served(rs: Seq<RouteView>, pre: Seq<char>) -> bool {
    &&& fixed_served(rs, pre)
    &&& forall|g: int| 0 <= g < numbered_endpoints().len() ==> #[trigger] numbered_served(rs, pre, g)
    &&& forall|g: int| 0 <= g < paired_endpoints().len() ==> #[trigger] paired_served(rs, pre, g)
}

proof fn lemma_served_kept(a: Seq<RouteView>, b: Seq<RouteView>, m: Seq<char>, p: Seq<char>)
    requires
        extends(a, b),
        served(b, m, p),
    ensures
        served(a, m, p),
{
    let i = choose|i: int| 0 <= i < b.len() && serves(#[trigger] b[i], m, p);
    assert(a.subrange(0, b.len() as int)[i] == a[i]);
    assert(serves(a[i], m, p));
}

proof fn lemma_numbered_served_kept(a: Seq<RouteView>, b: Seq<RouteView>, pre: Seq<char>, g: int)
    requires
        extends(a, b),
        numbered_served(b, pre, g),
    ensures
        numbered_served(a, pre, g),
{
    reveal(numbered_served);
    assert forall|k: int| 0 <= k < numbered_endpoints()[g].1.len() implies served(
        a,
        "GET"@,
        numbered_path(pre, numbered_endpoints()[g].0, #[trigger] numbered_endpoints()[g].1[k]),
    ) by {
        lemma_served_kept(a, b, "GET"@, numbered_path(pre, numbered_endpoints()[g].0, numbered_endpoints()[g].1[k]));
    }
}

proof fn lemma_paired_served_kept(a: Seq<RouteView>, b: Seq<RouteView>, pre: Seq<char>, g: int)
    requires
        extends(a, b),
        paired_served(b, pre, g),
    ensures
        paired_served(a, pre, g),
{
    reveal(paired_served);
    assert forall|k: int| 0 <= k < paired_endpoints()[g].1.len() implies served(
        a,
        "GET"@,
        paired_path(
            pre,
            paired_endpoints()[g].0,
            (#[trigger] paired_endpoints()[g].1[k]).0,
            paired_endpoints()[g].1[k].1,
        ),
    ) by {
        lemma_served_kept(
            a,
            b,
            "GET"@,
            paired_path(pre, paired_endpoints()[g].0, paired_endpoints()[g].1[k].0, paired_endpoints()[g].1[k].1),
        );
    }
}

proof fn lemma_fixed_served_kept(a: Seq<RouteView>, b: Seq<RouteView>, pre: Seq<char>)
    requires
        extends(a, b),
        fixed_served(b, pre),
    ensures
        fixed_served(a, pre),
{
    assert forall|k: int| 0 <= k < fixed_endpoints().len() implies served(
        a,
        (#[trigger] fixed_endpoints()[k]).0,
        fixed_path(pre, fixed_endpoints()[k].1, fixed_endpoints()[k].2),
    ) by {
        lemma_served_kept(a, b, fixed_endpoints()[k].0, fixed_path(pre, fixed_endpoints()[k].1, fixed_endpoints()[k].2));
    }
}

proof fn lemma_class_served_kept(a: Seq<RouteView>, b: Seq<RouteView>, pre: Seq<char>)
    requires
        extends(a, b),
        class_served(b, pre),
    ensures
        class_served(a, pre),
{
    lemma_fixed_served_kept(a, b, pre);
    assert forall|g: int| 0 <= g < numbered_endpoints().len() implies #[trigger] numbered_served(a, pre, g) by {
        lemma_numbered_served_kept(a, b, pre, g);
    }
    assert forall|g: int| 0 <= g < paired_endpoints().len() implies #[trigger] paired_served(a, pre, g) by {
        lemma_paired_served_kept(a, b, pre, g);
    }
}

/// Every base name of the enumeration is plain and known.
proof fn lemma_endpoint_bases()
    ensures
        forall|k: int|
            0 <= k < fixed_endpoints().len() ==> plain_base((#[trigger] fixed_endpoints()[k]).1)
                && known_base(fixed_endpoints()[k].1),
        forall|g: int|
            0 <= g < numbered_endpoints().len() ==> plain_base((#[trigger] numbered_endpoints()[g]).0)
                && known_base(numbered_endpoints()[g].0),
        forall|g: int|
            0 <= g < paired_endpoints().len() ==> plain_base((#[trigger] paired_endpoints()[g]).0)
                && known_base(paired_endpoints()[g].0),
{
    reveal_strlit("absolute-redirect");
    reveal_strlit("anything");
    reveal_strlit("base64");
    reveal_strlit("basic-auth");
    reveal_strlit("bearer");
    reveal_strlit("brotli");
    reveal_strlit("bytes");
    reveal_strlit("cache");
    reveal_strlit("cookies");
    reveal_strlit("deflate");
    reveal_strlit("delay");
    reveal_strlit("delete");
    reveal_strlit("deny");
    reveal_strlit("digest-auth");
    reveal_strlit("drip");
    reveal_strlit("encoding");
    reveal_strlit("etag");
    reveal_strlit("get");
    reveal_strlit("gzip");
    reveal_strlit("headers");
    reveal_strlit("hidden-basic-auth");
    reveal_strlit("html");
    reveal_strlit("image");
    reveal_strlit("ip");
    reveal_strlit("json");
    reveal_strlit("links");
    reveal_strlit("patch");
    reveal_strlit("post");
    reveal_strlit("put");
    reveal_strlit("range");
    reveal_strlit("redirect");
    reveal_strlit("redirect-to");
    reveal_strlit("relative-redirect");
    reveal_strlit("response-headers");
    reveal_strlit("robots.txt");
    reveal_strlit("status");
    reveal_strlit("stream");
    reveal_strlit("stream-bytes");
    reveal_strlit("user-agent");
    reveal_strlit("uuid");
    reveal_strlit("xml");
}

fn add_route(t: &mut RouteTable, method: &str, path: &[char], pre: &[char])
    requires
        routes_wf(old(t)@),
        has_prefix(path@, pre@),
        class_of_path(path@) == head_class(pre@),
    ensures
        routes_wf(final(t)@),
        added_under(final(t)@, old(t)@, pre@),
        handler_spec(path@).0.is_some() ==> served(final(t)@, method@, path@),
{
    let p = string_of(path);
    let ghost before = t@;
    if t.add(method, p.as_str()) {
        assert(t@.subrange(0, before.len() as int) =~= before);
        assert(t@[before.len() as int].path == path@);
        assert(t@[before.len() as int].class == class_of_path(path@));
        assert(serves(t@[before.len() as int], method@, path@));
    } else {
        assert(t@.subrange(0, before.len() as int) =~= before);
    }
}

/// `<prefix>/` as characters.
fn head_of(prefix: &str) -> (r: Vec<char>)
    ensures
        r@ == prefix@.push('/'),
{
    let mut h = chars_of(prefix);
    h.push('/');
    h
}

/// Registers `<prefix>/<base><tail>`.
fn add_entry(t: &mut RouteTable, method: &str, prefix: &str, base: &str, tail: &[char])
    requires
        routes_wf(old(t)@),
        prefix_ok(prefix@),
        plain_base(base@),
        known_base(base@),
        tail@.len() == 0 || tail@[0] == '/',
    ensures
        routes_wf(final(t)@),
        added_under(final(t)@, old(t)@, prefix@.push('/')),
        served(final(t)@, method@, prefix@ + seq!['/'] + base@ + tail@),
{
    let head = head_of(prefix);
    let mut p: Vec<char> = Vec::new();
    push_all(&mut p, head.as_slice());
    push_str(&mut p, base);
    push_all(&mut p, tail);
    assert(p@ =~= prefix@ + seq!['/'] + base@ + tail@);
    assert(p@.subrange(0, head@.len() as int) =~= head@);
    proof {
        lemma_route_path_handled(prefix@, base@, tail@);
    }
    assert(class_of_path(p@) == head_class(head@));
    add_route(t, method, p.as_slice(), head.as_slice());
}

/// `<prefix>/<base>/<n>` for each `n`.
fn add_numbered(t: &mut RouteTable, prefix: &str, base: &str, ns: &Vec<u64>)
    requires
        routes_wf(old(t)@),
        prefix_ok(prefix@),
        plain_base(base@),
        known_base(base@),
    ensures
        routes_wf(final(t)@),
        added_under(final(t)@, old(t)@, prefix@.push('/')),
        forall|k: int| 0 <= k < ns@.len() ==> served(final(t)@, "GET"@, numbered_path(prefix@, base@, #[trigger] ns@[k])),
{
    let mut i: usize = 0;
    assert(t@.subrange(0, t@.len() as int) =~= t@);
    while i < ns.len()
        invariant
            i <= ns@.len(),
            prefix_ok(prefix@),
            plain_base(base@),
            known_base(base@),
            routes_wf(t@),
            added_under(t@, old(t)@, prefix@.push('/')),
            forall|k: int| 0 <= k < i ==> served(t@, "GET"@, numbered_path(prefix@, base@, #[trigger] ns@[k])),
        decreases ns@.len() - i,
    {
        let mut tail: Vec<char> = Vec::new();
        tail.push('/');
        push_decimal(&mut tail, ns[i]);
        let ghost before = t@;
        add_entry(t, "GET", prefix, base, tail.as_slice());
        proof {
            lemma_added_under_trans(t@, before, old(t)@, prefix@.push('/'));
            assert(tail@ =~= seq!['/'] + decimal(ns@[i as int] as nat));
            assert forall|k: int| 0 <= k < i + 1 implies served(t@, "GET"@, numbered_path(prefix@, base@, #[trigger] ns@[k])) by {
                if k < i {
                    lemma_served_kept(t@, before, "GET"@, numbered_path(prefix@, base@, ns@[k]));
                }
            }
        }
        i = i + 1;
    }
}

/// `<prefix>/<base>/<a>/<b>` for each pair, `/<b>` left out when empty.
fn add_pairs(t: &mut RouteTable, prefix: &str, base: &str, ps: &Vec<(&str, &str)>)
    requires
        routes_wf(old(t)@),
        prefix_ok(prefix@),
        plain_base(base@),
        known_base(base@),
    ensures
        routes_wf(final(t)@),
        added_under(final(t)@, old(t)@, prefix@.push('/')),
        forall|k: int| 0 <= k < ps@.len() ==> served(final(t)@, "GET"@, paired_path(prefix@, base@, (#[trigger] ps@[k]).0@, ps@[k].1@)),
{
    let mut i: usize = 0;
    assert(t@.subrange(0, t@.len() as int) =~= t@);
    while i < ps.len()
        invariant
            i <= ps@.len(),
            prefix_ok(prefix@),
            plain_base(base@),
            known_base(base@),
            routes_wf(t@),
            added_under(t@, old(t)@, prefix@.push('/')),
            forall|k: int| 0 <= k < i ==> served(t@, "GET"@, paired_path(prefix@, base@, (#[trigger] ps@[k]).0@, ps@[k].1@)),
        decreases ps@.len() - i,
    {
        let (a, b) = ps[i];
        let mut tail: Vec<char> = Vec::new();
        tail.push('/');
        push_str(&mut tail, a);
        let bc = chars_of(b);
        if bc.len() > 0 {
            tail.push('/');
            push_str(&mut tail, b);
        }
        assert(tail@ =~= seq!['/'] + a@ + sub_path(b@));
        let ghost before = t@;
        add_entry(t, "GET", prefix, base, tail.as_slice());
        proof {
            lemma_added_under_trans(t@, before, old(t)@, prefix@.push('/'));
            assert forall|k: int| 0 <= k < i + 1 implies served(t@, "GET"@, paired_path(prefix@, base@, (#[trigger] ps@[k]).0@, ps@[k].1@)) by {
                if k < i {
                    lemma_served_kept(t@, before, "GET"@, paired_path(prefix@, base@, ps@[k].0@, ps@[k].1@));
                }
            }
        }
        i = i + 1;
    }
}
/// Registers the endpoints without parameters under a prefix.
fn add_fixed(t: &mut RouteTable, prefix: &str)
    requires
        routes_wf(old(t)@),
        prefix_ok(prefix@),
    ensures
        routes_wf(final(t)@),
        added_under(final(t)@, old(t)@, prefix@.push('/')),
        fixed_served(final(t)@, prefix@),
{
    proof {
        lemma_endpoint_bases();
    }
    let fixed: Vec<(&str, &str, &str)> = vec![
        ("GET", "bearer", ""),
        ("GET", "brotli", ""),
        ("GET", "cache", ""),
        ("GET", "cookies", ""),
        ("GET", "cookies", "delete"),
        ("GET", "cookies", "set"),
        ("GET", "deflate", ""),
        ("DELETE", "delete", ""),
        ("GET", "deny", ""),
        ("GET", "drip", ""),
        ("GET", "encoding", "utf8"),
        ("GET", "get", ""),
        ("GET", "gzip", ""),
        ("GET", "headers", ""),
        ("GET", "html", ""),
        ("GET", "image", ""),
        ("GET", "image", "jpeg"),
        ("GET", "image", "png"),
        ("GET", "image", "svg"),
        ("GET", "image", "webp"),
        ("GET", "ip", ""),
        ("GET", "json", ""),
        ("PATCH", "patch", ""),
        ("POST", "post", ""),
        ("PUT", "put", ""),
        ("GET", "redirect-to", ""),
        ("GET", "response-headers", ""),
        ("GET", "robots.txt", ""),
        ("GET", "user-agent", ""),
        ("GET", "uuid", ""),
        ("GET", "xml", ""),
        ("GET", "anything", ""),
    ];
    assert(fixed@.map_values(|e: (&str, &str, &str)| (e.0@, e.1@, e.2@)) =~= fixed_endpoints());
    let ghost pre = prefix@.push('/');
    let ghost fx = fixed_endpoints();
    let mut i: usize = 0;
    assert(t@.subrange(0, t@.len() as int) =~= t@);
    while i < fixed.len()
        invariant
            i <= fixed@.len(),
            fixed@.map_values(|e: (&str, &str, &str)| (e.0@, e.1@, e.2@)) == fx,
            fx == fixed_endpoints(),
            pre == prefix@.push('/'),
            prefix_ok(prefix@),
            forall|k: int| 0 <= k < fx.len() ==> plain_base((#[trigger] fx[k]).1) && known_base(fx[k].1),
            routes_wf(t@),
            added_under(t@, old(t)@, pre),
            forall|k: int| 0 <= k < i ==> served(t@, (#[trigger] fx[k]).0, fixed_path(prefix@, fx[k].1, fx[k].2)),
        decreases fixed@.len() - i,
    {
        let (method, base, sub) = fixed[i];
        assert(fx[i as int] == (method@, base@, sub@));
        let mut tail: Vec<char> = Vec::new();
        let sc = chars_of(sub);
        if sc.len() > 0 {
            tail.push('/');
            push_str(&mut tail, sub);
        }
        assert(tail@ =~= sub_path(sub@));
        let ghost before = t@;
        add_entry(t, method, prefix, base, tail.as_slice());
        proof {
            lemma_added_under_trans(t@, before, old(t)@, pre);
            assert forall|k: int| 0 <= k < i + 1 implies served(t@, (#[trigger] fx[k]).0, fixed_path(prefix@, fx[k].1, fx[k].2)) by {
                if k < i {
                    lemma_served_kept(t@, before, fx[k].0, fixed_path(prefix@, fx[k].1, fx[k].2));
                }
            }
        }
        i = i + 1;
    }
}

/// Registers numbered group `g` under a prefix.
fn add_numbered_group(t: &mut RouteTable, prefix: &str, g: usize, base: &str, v: &Vec<u64>)
    requires
        routes_wf(old(t)@),
        prefix_ok(prefix@),
        g < numbered_endpoints().len(),
        numbered_endpoints()[g as int].0 == base@,
        numbered_endpoints()[g as int].1 == v@,
    ensures
        routes_wf(final(t)@),
        added_under(final(t)@, old(t)@, prefix@.push('/')),
        numbered_served(final(t)@, prefix@, g as int),
{
    proof {
        lemma_endpoint_bases();
        assert(plain_base(numbered_endpoints()[g as int].0));
    }
    add_numbered(t, prefix, base, v);
    proof {
        reveal(numbered_served);
    }
}

/// Registers the numbered endpoints under a prefix.
fn add_numbered_groups(t: &mut RouteTable, prefix: &str)
    requires
        routes_wf(old(t)@),
        prefix_ok(prefix@),
    ensures
        routes_wf(final(t)@),
        added_under(final(t)@, old(t)@, prefix@.push('/')),
        forall|g: int| 0 <= g < numbered_endpoints().len() ==> #[trigger] numbered_served(final(t)@, prefix@, g),
{
    let ghost pre = prefix@.push('/');
    let ghost s0 = t@;
    let v0: Vec<u64> = vec![100, 200, 201, 202, 204, 301, 302, 303, 304, 307, 308, 400, 401, 403, 404, 405, 406, 408, 409, 410, 418, 429, 500, 501, 502, 503, 504];
    assert(numbered_endpoints()[0].1 =~= v0@);
    add_numbered_group(t, prefix, 0, "status", &v0);
    let ghost s1 = t@;
    let v1: Vec<u64> = vec![1, 10, 100, 256, 512, 1024, 2048, 4096, 8192];
    assert(numbered_endpoints()[1].1 =~= v1@);
    add_numbered_group(t, prefix, 1, "bytes", &v1);
    let ghost s2 = t@;
    let v2: Vec<u64> = vec![1, 2, 3, 5, 10];
    assert(numbered_endpoints()[2].1 =~= v2@);
    add_numbered_group(t, prefix, 2, "delay", &v2);
    let ghost s3 = t@;
    let v3: Vec<u64> = vec![1, 5, 10, 20, 50, 100];
    assert(numbered_endpoints()[3].1 =~= v3@);
    add_numbered_group(t, prefix, 3, "stream", &v3);
    let ghost s4 = t@;
    let v4: Vec<u64> = vec![100, 512, 1024, 2048, 4096, 8192];
    assert(numbered_endpoints()[4].1 =~= v4@);
    add_numbered_group(t, prefix, 4, "stream-bytes", &v4);
    let ghost s5 = t@;
    let v5: Vec<u64> = vec![1, 2, 3, 4, 5, 6, 7, 8, 9, 10];
    assert(numbered_endpoints()[5].1 =~= v5@);
    add_numbered_group(t, prefix, 5, "redirect", &v5);
    let ghost s6 = t@;
    let v6: Vec<u64> = vec![1, 2, 3, 4, 5, 6, 7, 8, 9, 10];
    assert(numbered_endpoints()[6].1 =~= v6@);
    add_numbered_group(t, prefix, 6, "absolute-redirect", &v6);
    let ghost s7 = t@;
    let v7: Vec<u64> = vec![1, 2, 3, 4, 5, 6, 7, 8, 9, 10];
    assert(numbered_endpoints()[7].1 =~= v7@);
    add_numbered_group(t, prefix, 7, "relative-redirect", &v7);
    let ghost s8 = t@;
    let v8: Vec<u64> = vec![10, 30, 60, 120, 300, 600, 3600];
    assert(numbered_endpoints()[8].1 =~= v8@);
    add_numbered_group(t, prefix, 8, "cache", &v8);
    let ghost s9 = t@;
    let v9: Vec<u64> = vec![100, 256, 512, 1024, 2048, 4096];
    assert(numbered_endpoints()[9].1 =~= v9@);
    add_numbered_group(t, prefix, 9, "range", &v9);
    let ghost s10 = t@;
    proof {
        assert(extends(t@, s10)) by {
            assert(t@.subrange(0, t@.len() as int) =~= t@);
        }
        lemma_added_under_trans(s2, s1, s0, pre);
        lemma_added_under_trans(s3, s2, s0, pre);
        lemma_added_under_trans(s4, s3, s0, pre);
        lemma_added_under_trans(s5, s4, s0, pre);
        lemma_added_under_trans(s6, s5, s0, pre);
        lemma_added_under_trans(s7, s6, s0, pre);
        lemma_added_under_trans(s8, s7, s0, pre);
        lemma_added_under_trans(s9, s8, s0, pre);
        lemma_added_under_trans(s10, s9, s0, pre);
        lemma_extends_trans(t@, s10, s9);
        lemma_extends_trans(t@, s9, s8);
        lemma_extends_trans(t@, s8, s7);
        lemma_extends_trans(t@, s7, s6);
        lemma_extends_trans(t@, s6, s5);
        lemma_extends_trans(t@, s5, s4);
        lemma_extends_trans(t@, s4, s3);
        lemma_extends_trans(t@, s3, s2);
        lemma_extends_trans(t@, s2, s1);
        lemma_extends_trans(t@, s1, s0);
        lemma_numbered_served_kept(t@, s1, prefix@, 0);
        lemma_numbered_served_kept(t@, s2, prefix@, 1);
        lemma_numbered_served_kept(t@, s3, prefix@, 2);
        lemma_numbered_served_kept(t@, s4, prefix@, 3);
        lemma_numbered_served_kept(t@, s5, prefix@, 4);
        lemma_numbered_served_kept(t@, s6, prefix@, 5);
        lemma_numbered_served_kept(t@, s7, prefix@, 6);
        lemma_numbered_served_kept(t@, s8, prefix@, 7);
        lemma_numbered_served_kept(t@, s9, prefix@, 8);
        lemma_numbered_served_kept(t@, s10, prefix@, 9);
        assert forall|g: int| 0 <= g < numbered_endpoints().len() implies #[trigger] numbered_served(t@, prefix@, g) by {
            if g == 0 {
            } else if g == 1 {
            } else if g == 2 {
            } else if g == 3 {
            } else if g == 4 {
            } else if g == 5 {
            } else if g == 6 {
            } else if g == 7 {
            } else if g == 8 {
            } else if g == 9 {
            }
        }
    }
}

/// Registers paired group `g` under a prefix.
fn add_paired_group(t: &mut RouteTable, prefix: &str, g: usize, base: &str, v: &Vec<(&str, &str)>)
    requires
        routes_wf(old(t)@),
        prefix_ok(prefix@),
        g < paired_endpoints().len(),
        paired_endpoints()[g as int].0 == base@,
        paired_endpoints()[g as int].1 == v@.map_values(|e: (&str, &str)| (e.0@, e.1@)),
    ensures
        routes_wf(final(t)@),
        added_under(final(t)@, old(t)@, prefix@.push('/')),
        paired_served(final(t)@, prefix@, g as int),
{
    proof {
        lemma_endpoint_bases();
        assert(plain_base(paired_endpoints()[g as int].0));
    }
    add_pairs(t, prefix, base, v);
    proof {
        reveal(paired_served);
    }
}

/// Registers the paired endpoints under a prefix.
fn add_paired_groups(t: &mut RouteTable, prefix: &str)
    requires
        routes_wf(old(t)@),
        prefix_ok(prefix@),
    ensures
        routes_wf(final(t)@),
        added_under(final(t)@, old(t)@, prefix@.push('/')),
        forall|g: int| 0 <= g < paired_endpoints().len() ==> #[trigger] paired_served(final(t)@, prefix@, g),
{
    let ghost pre = prefix@.push('/');
    let ghost s0 = t@;
    let v0: Vec<(&str, &str)> = vec![("5", "0"), ("5", "1"), ("5", "5"), ("10", "0"), ("10", "1"), ("10", "5"), ("20", "0"), ("20", "1"), ("20", "5")];
    assert(paired_endpoints()[0].1 =~= v0@.map_values(|e: (&str, &str)| (e.0@, e.1@)));
    add_paired_group(t, prefix, 0, "links", &v0);
    let ghost s1 = t@;
    let v1: Vec<(&str, &str)> = vec![("aGVsbG8=", ""), ("dGVzdA==", ""), ("aHR0cGJpbg==", ""), ("SGVsbG8gV29ybGQh", "")];
    assert(paired_endpoints()[1].1 =~= v1@.map_values(|e: (&str, &str)| (e.0@, e.1@)));
    add_paired_group(t, prefix, 1, "base64", &v1);
    let ghost s2 = t@;
    let v2: Vec<(&str, &str)> = vec![("test", ""), ("foo", ""), ("bar", ""), ("hello", ""), ("api", ""), ("v1", ""), ("data", "")];
    assert(paired_endpoints()[2].1 =~= v2@.map_values(|e: (&str, &str)| (e.0@, e.1@)));
    add_paired_group(t, prefix, 2, "anything", &v2);
    let ghost s3 = t@;
    let v3: Vec<(&str, &str)> = vec![("user", "pass"), ("admin", "admin"), ("test", "test")];
    assert(paired_endpoints()[3].1 =~= v3@.map_values(|e: (&str, &str)| (e.0@, e.1@)));
    add_paired_group(t, prefix, 3, "basic-auth", &v3);
    let ghost s4 = t@;
    let v4: Vec<(&str, &str)> = vec![("user", "pass"), ("admin", "admin")];
    assert(paired_endpoints()[4].1 =~= v4@.map_values(|e: (&str, &str)| (e.0@, e.1@)));
    add_paired_group(t, prefix, 4, "hidden-basic-auth", &v4);
    let ghost s5 = t@;
    let v5: Vec<(&str, &str)> = vec![("auth/user", "pass"), ("auth/admin", "admin"), ("auth-int/user", "pass"), ("auth-int/admin", "admin")];
    assert(paired_endpoints()[5].1 =~= v5@.map_values(|e: (&str, &str)| (e.0@, e.1@)));
    add_paired_group(t, prefix, 5, "digest-auth", &v5);
    let ghost s6 = t@;
    let v6: Vec<(&str, &str)> = vec![("set/session", "abc123"), ("set/foo", "bar"), ("set/test", "value")];
    assert(paired_endpoints()[6].1 =~= v6@.map_values(|e: (&str, &str)| (e.0@, e.1@)));
    add_paired_group(t, prefix, 6, "cookies", &v6);
    let ghost s7 = t@;
    let v7: Vec<(&str, &str)> = vec![("test", ""), ("abc123", ""), ("etag1", "")];
    assert(paired_endpoints()[7].1 =~= v7@.map_values(|e: (&str, &str)| (e.0@, e.1@)));
    add_paired_group(t, prefix, 7, "etag", &v7);
    let ghost s8 = t@;
    proof {
        assert(extends(t@, s8)) by {
            assert(t@.subrange(0, t@.len() as int) =~= t@);
        }
        lemma_added_under_trans(s2, s1, s0, pre);
        lemma_added_under_trans(s3, s2, s0, pre);
        lemma_added_under_trans(s4, s3, s0, pre);
        lemma_added_under_trans(s5, s4, s0, pre);
        lemma_added_under_trans(s6, s5, s0, pre);
        lemma_added_under_trans(s7, s6, s0, pre);
        lemma_added_under_trans(s8, s7, s0, pre);
        lemma_extends_trans(t@, s8, s7);
        lemma_extends_trans(t@, s7, s6);
        lemma_extends_trans(t@, s6, s5);
        lemma_extends_trans(t@, s5, s4);
        lemma_extends_trans(t@, s4, s3);
        lemma_extends_trans(t@, s3, s2);
        lemma_extends_trans(t@, s2, s1);
        lemma_extends_trans(t@, s1, s0);
        lemma_paired_served_kept(t@, s1, prefix@, 0);
        lemma_paired_served_kept(t@, s2, prefix@, 1);
        lemma_paired_served_kept(t@, s3, prefix@, 2);
        lemma_paired_served_kept(t@, s4, prefix@, 3);
        lemma_paired_served_kept(t@, s5, prefix@, 4);
        lemma_paired_served_kept(t@, s6, prefix@, 5);
        lemma_paired_served_kept(t@, s7, prefix@, 6);
        lemma_paired_served_kept(t@, s8, prefix@, 7);
        assert forall|g: int| 0 <= g < paired_endpoints().len() implies #[trigger] paired_served(t@, prefix@, g) by {
            if g == 0 {
            } else if g == 1 {
            } else if g == 2 {
            } else if g == 3 {
            } else if g == 4 {
            } else if g == 5 {
            } else if g == 6 {
            } else if g == 7 {
            }
        }
    }
}

/// Registers every endpoint under one protocol prefix (empty for the
/// routes of any protocol), each parameterised endpoint with its
/// enumerated sample values. Every listed endpoint is served afterwards, and
/// every route it adds lies under `<prefix>/`.
fn register_class(t: &mut RouteTable, prefix: &str)
    requires
        routes_wf(old(t)@),
        prefix_ok(prefix@),
    ensures
        routes_wf(final(t)@),
        added_under(final(t)@, old(t)@, prefix@.push('/')),
        class_served(final(t)@, prefix@),
{
    let ghost pre = prefix@.push('/');
    let ghost s0 = t@;
    add_fixed(t, prefix);
    let ghost s1 = t@;
    add_numbered_groups(t, prefix);
    let ghost s2 = t@;
    add_paired_groups(t, prefix);
    proof {
        lemma_added_under_trans(s2, s1, s0, pre);
        lemma_added_under_trans(t@, s2, s0, pre);
        lemma_extends_trans(t@, s2, s1);
        lemma_fixed_served_kept(t@, s1, prefix@);
        assert forall|g: int| 0 <= g < numbered_endpoints().len() implies #[trigger] numbered_served(t@, prefix@, g) by {
            lemma_numbered_served_kept(t@, s2, prefix@, g);
        }
    }
}

/// Routes added under `/hN/` have the class of protocol `N`.
proof fn lemma_class_under(a: Seq<RouteView>, b: Seq<RouteView>, prefix: &str, class: RouteClass)
    requires
        routes_wf(a),
        added_under(a, b, prefix@.push('/')),
        prefix@.len() == 3 && prefix@[0] == '/' && prefix@[1] == 'h',
        class == (if prefix@[2] == '1' {
            RouteClass::H1Only
        } else if prefix@[2] == '2' {
            RouteClass::H2Only
        } else {
            RouteClass::H3Only
        }),
        '1' <= prefix@[2] <= '3',
    ensures
        forall|i: int| b.len() <= i < a.len() ==> (#[trigger] a[i]).class == class,
{
    assert forall|i: int| b.len() <= i < a.len() implies (#[trigger] a[i]).class == class by {
        let p = a[i].path;
        assert(has_prefix(p, prefix@.push('/')));
        assert(p.subrange(0, 4)[0] == p[0]);
        assert(p[0] == '/' && p[1] == 'h' && p[2] == prefix@[2] && p[3] == '/') by {
            assert(p.subrange(0, 4) == prefix@.push('/'));
            assert(p.subrange(0, 4)[1] == p[1]);
            assert(p.subrange(0, 4)[2] == p[2]);
            assert(p.subrange(0, 4)[3] == p[3]);
        }
    }
}

/// Registers every enumerated endpoint for any protocol: afterwards each one
/// is served, and every route it adds has a path that starts with `/` and
/// is served on every protocol.
pub fn register_any_protocol_mocks(t: &mut RouteTable)
    requires
        routes_wf(old(t)@),
    ensures
        routes_wf(final(t)@),
        added_under(final(t)@, old(t)@, seq!['/']),
        forall|i: int| old(t)@.len() <= i < final(t)@.len() ==> (#[trigger] final(t)@[i]).class == RouteClass::Any,
        class_served(final(t)@, ""@),
{
    proof {
        reveal_strlit("");
    }
    register_class(t, "");
    assert(""@.push('/') =~= seq!['/']) by {
        reveal_strlit("");
    }
}

/// Registers every enumerated endpoint under `/h1/`, each served on
/// HTTP/1.1 only.
pub fn register_h1_mocks(t: &mut RouteTable)
    requires
        routes_wf(old(t)@),
    ensures
        routes_wf(final(t)@),
        added_under(final(t)@, old(t)@, "/h1/"@),
        class_served(final(t)@, "/h1"@),
        forall|i: int| old(t)@.len() <= i < final(t)@.len() ==> (#[trigger] final(t)@[i]).class == RouteClass::H1Only,
{
    proof {
        reveal_strlit("/h1");
    }
    register_class(t, "/h1");
    proof {
        reveal_strlit("/h1");
        reveal_strlit("/h1/");
        assert("/h1"@.push('/') =~= "/h1/"@);
        lemma_class_under(t@, old(t)@, "/h1", RouteClass::H1Only);
    }
}

/// Registers every enumerated endpoint under `/h2/`, each served on HTTP/2
/// only.
pub fn register_h2_mocks(t: &mut RouteTable)
    requires
        routes_wf(old(t)@),
    ensures
        routes_wf(final(t)@),
        added_under(final(t)@, old(t)@, "/h2/"@),
        class_served(final(t)@, "/h2"@),
        forall|i: int| old(t)@.len() <= i < final(t)@.len() ==> (#[trigger] final(t)@[i]).class == RouteClass::H2Only,
{
    proof {
        reveal_strlit("/h2");
    }
    register_class(t, "/h2");
    proof {
        reveal_strlit("/h2");
        reveal_strlit("/h2/");
        assert("/h2"@.push('/') =~= "/h2/"@);
        lemma_class_under(t@, old(t)@, "/h2", RouteClass::H2Only);
    }
}

/// Registers every enumerated endpoint under `/h3/`, each served on HTTP/3
/// only.
pub fn register_h3_mocks(t: &mut RouteTable)
    requires
        routes_wf(old(t)@),
    ensures
        routes_wf(final(t)@),
        added_under(final(t)@, old(t)@, "/h3/"@),
        class_served(final(t)@, "/h3"@),
        forall|i: int| old(t)@.len() <= i < final(t)@.len() ==> (#[trigger] final(t)@[i]).class == RouteClass::H3Only,
{
    proof {
        reveal_strlit("/h3");
    }
    register_class(t, "/h3");
    proof {
        reveal_strlit("/h3");
        reveal_strlit("/h3/");
        assert("/h3"@.push('/') =~= "/h3/"@);
        lemma_class_under(t@, old(t)@, "/h3", RouteClass::H3Only);
    }
}

impl RouteTable {
    /// The full table: every enumerated endpoint under each of the four
    /// route classes, with no prefix and under `/h1`, `/h2` and `/h3`.
    pub fn standard() -> (t: RouteTable)
        ensures
            routes_wf(t@),
            class_served(t@, ""@),
            class_served(t@, "/h1"@),
            class_served(t@, "/h2"@),
            class_served(t@, "/h3"@),
    {
        let mut t = RouteTable::new();
        register_any_protocol_mocks(&mut t);
        let ghost s1 = t@;
        register_h1_mocks(&mut t);
        let ghost s2 = t@;
        register_h2_mocks(&mut t);
        let ghost s3 = t@;
        register_h3_mocks(&mut t);
        proof {
            lemma_extends_trans(t@, s3, s2);
            lemma_extends_trans(t@, s2, s1);
            lemma_class_served_kept(t@, s1, ""@);
            lemma_class_served_kept(t@, s2, "/h1"@);
            lemma_class_served_kept(t@, s3, "/h2"@);
        }
        t
    }
}

// ---------------------------------------------------------------------------
// Laws
// ---------------------------------------------------------------------------

/// A route that requires HTTP/1.1, asked over HTTP/2 or HTTP/3, is refused at
/// the protocol guard: the request comes to the fixed 421, and the handler, with any
/// random values it would draw, is not run.
pub proof fn lemma_h1_only_refuses_other_protocols(route: RouteView, req: RequestView)
    requires
        route.class == RouteClass::H1Only,
        protocol_spec(req.http_version) == Protocol::H2 || protocol_spec(req.http_version)
            == Protocol::H3,
    ensures
        outcome_spec(route, req) == Outcome::Misdirected,
        response_spec(route, req) == Some(misdirected_view()),
{
}

/// A route whose handler draws no random values answers identical requests
/// with identical responses, byte for byte.
pub proof fn lemma_identical_requests_identical_responses(
    route: RouteView,
    a: RequestView,
    b: RequestView,
)
    requires
        a.method == b.method,
        a.path == b.path,
        a.headers == b.headers,
        a.http_version == b.http_version,
        response_spec(route, a).is_some(),
    ensures
        response_spec(route, b) == response_spec(route, a),
{
    assert(a == b);
}

// ---------------------------------------------------------------------------
// Path templates
// ---------------------------------------------------------------------------

/// The placeholder names a path template may hold.
pub open spec fn known_names() -> Seq<Seq<char>> {
    seq![
        "codes"@, "code"@, "n"@, "delay"@, "value"@, "user"@, "passwd"@, "qop"@, "algorithm"@,
        "etag"@, "name"@, "anything"@, "format"@,
    ]
}

/// `{name}`
pub open spec fn braced(n: Seq<char>) -> Seq<char> {
    seq!['{'] + n + seq!['}']
}

/// The first of `names` whose braced form starts `s`.
pub open spec fn first_placeholder(s: Seq<char>, names: Seq<Seq<char>>) -> Option<int>
    decreases names.len(),
{
    if names.len() == 0 {
        None
    } else if has_prefix(s, braced(names[0])) {
        Some(0)
    } else {
        match first_placeholder(s, names.drop_first()) {
            Some(i) => Some(i + 1),
            None => None,
        }
    }
}

/// A path template with each known `{name}` placeholder written `:name`,
/// read from left to right.
pub open spec fn pattern_of(s: Seq<char>) -> Seq<char>
    decreases s.len(),
{
    if s.len() == 0 {
        Seq::empty()
    } else {
        let o = first_placeholder(s, known_names());
        if o.is_some() && 0 <= o.unwrap() < known_names().len() && has_prefix(
            s,
            braced(known_names()[o.unwrap()]),
        ) {
            let n = known_names()[o.unwrap()];
            seq![':'] + n + pattern_of(s.subrange(braced(n).len() as int, s.len() as int))
        } else {
            seq![s[0]] + pattern_of(s.drop_first())
        }
    }
}

proof fn lemma_first_placeholder(s: Seq<char>, names: Seq<Seq<char>>)
    ensures
        first_placeholder(s, names) matches Some(i) ==> 0 <= i < names.len() && has_prefix(
            s,
            braced(names[i]),
        ),
    decreases names.len(),
{
    if names.len() > 0 && !has_prefix(s, braced(names[0])) {
        lemma_first_placeholder(s, names.drop_first());
    }
}

fn find_placeholder(s: &[char], names: &Vec<&str>) -> (r: Option<usize>)
    ensures
        match first_placeholder(s@, names@.map_values(|n: &str| n@)) {
            Some(i) => r == Some(i as usize),
            None => r.is_none(),
        },
{
    let ghost ns = names@.map_values(|n: &str| n@);
    let mut i: usize = 0;
    assert(ns.subrange(0, ns.len() as int) =~= ns);
    while i < names.len()
        invariant
            i <= names@.len(),
            ns == names@.map_values(|n: &str| n@),
            first_placeholder(s@, ns) == match first_placeholder(s@, ns.subrange(i as int, ns.len() as int)) {
                Some(k) => Some(k + i),
                None => None::<int>,
            },
        decreases names@.len() - i,
    {
        let ghost rest = ns.subrange(i as int, ns.len() as int);
        assert(rest.drop_first() =~= ns.subrange(i + 1, ns.len() as int));
        let mut b: Vec<char> = Vec::new();
        b.push('{');
        push_str(&mut b, names[i]);
        b.push('}');
        assert(b@ =~= braced(rest[0]));
        if crate::text::starts_with(s, b.as_slice()) {
            return Some(i);
        }
        i = i + 1;
    }
    None
}

/// Rewrites the `{name}` placeholders of a path template as `:name`.
pub fn convert_path_to_pattern(path: &str) -> (r: String)
    ensures
        r@ == pattern_of(path@),
{
    let names: Vec<&str> = vec![
        "codes", "code", "n", "delay", "value", "user", "passwd", "qop", "algorithm", "etag",
        "name", "anything", "format",
    ];
    assert(names@.map_values(|n: &str| n@) =~= known_names());
    let s = chars_of(path);
    let mut out: Vec<char> = Vec::new();
    let mut i: usize = 0;
    assert(s@.subrange(0, s@.len() as int) =~= s@);
    while i < s.len()
        invariant
            i <= s@.len(),
            s@ == path@,
            names@.map_values(|n: &str| n@) == known_names(),
            out@ + pattern_of(s@.subrange(i as int, s@.len() as int)) == pattern_of(s@),
        decreases s@.len() - i,
    {
        let rest = slice_chars(s.as_slice(), i, s.len());
        proof {
            lemma_first_placeholder(rest@, known_names());
        }
        match find_placeholder(rest.as_slice(), &names) {
            Some(k) => {
                let n = chars_of(names[k]);
                let ghost nm = known_names()[k as int];
                assert(n@ == nm);
                out.push(':');
                push_str(&mut out, names[k]);
                let step = n.len() + 2;
                assert(rest@.subrange(braced(nm).len() as int, rest@.len() as int) =~= s@.subrange(
                    i + step,
                    s@.len() as int,
                ));
                i = i + step;
            },
            None => {
                out.push(s[i]);
                assert(rest@.drop_first() =~= s@.subrange(i + 1, s@.len() as int));
                i = i + 1;
            },
        }
    }
    string_of(out.as_slice())
}

} // verus!
