use vstd::prelude::*;

use crate::bridge::lowercase_of;
use crate::text::{chars_of, slice_chars, starts_with, utf8, utf8_bytes};
use crate::types::{Request, RequestView, Response, ResponseView, header_get, header_value};

verus! {

/// A sample page: the opening of Moby-Dick.
pub const HTML_PAGE: &'static str = "<!DOCTYPE html>\n<html>\n<head>\n    <title>Herman Melville - Moby-Dick</title>\n</head>\n<body>\n    <h1>Herman Melville - Moby-Dick</h1>\n    <div>\n        <p>\n            Call me Ishmael. Some years ago\u{2014}never mind how long precisely\u{2014}having little or no money in my purse, \n            and nothing particular to interest me on shore, I thought I would sail about a little and see the watery \n            part of the world...\n        </p>\n    </div>\n</body>\n</html>";

/// A sample XML slideshow.
pub const XML_PAGE: &'static str = "<?xml version='1.0' encoding='us-ascii'?>\n<slideshow \n    title=\"Sample Slide Show\"\n    date=\"Date of publication\"\n    author=\"Yours Truly\">\n    <slide type=\"all\">\n        <title>Wake up to WonderWidgets!</title>\n    </slide>\n    <slide type=\"all\">\n        <title>Overview</title>\n        <item>Why WonderWidgets are great</item>\n        <item>Who buys WonderWidgets</item>\n    </slide>\n</slideshow>";

/// The page that robots.txt keeps robots from.
pub const DENY_PAGE: &'static str = "<!DOCTYPE html>\n<html>\n<head>\n    <title>httpbin.org</title>\n</head>\n<body>\n    <h1>YOU SHOULDN'T BE HERE</h1>\n    <p>This page is used by robots.txt to deny access.</p>\n</body>\n</html>";

/// A page of UTF-8 text in several scripts.
pub const UTF8_PAGE: &'static str = "<!DOCTYPE html>\n<html>\n<head>\n    <meta charset=\"UTF-8\">\n    <title>UTF-8 Encoding Test</title>\n</head>\n<body>\n    <h1>UTF-8 Demo</h1>\n    <p>Hello world! \u{41F}\u{440}\u{438}\u{432}\u{435}\u{442} \u{43C}\u{438}\u{440}! \u{4F60}\u{597D}\u{4E16}\u{754C}! \u{645}\u{631}\u{62D}\u{628}\u{627} \u{628}\u{627}\u{644}\u{639}\u{627}\u{644}\u{645}!</p>\n    <p>\u{C9}mojis: \u{1F389} \u{FFFD}\u{FFFD} \u{2705} \u{1F4BB} \u{1F30D}</p>\n</body>\n</html>";

/// An HTML form that posts to `/post`.
pub const FORM_PAGE: &'static str = "<!DOCTYPE html>\n<html>\n<head>\n    <title>Form Test</title>\n</head>\n<body>\n    <h1>HTML Form</h1>\n    <form method=\"POST\" action=\"/post\">\n        <div>\n            <label for=\"custname\">Name:</label>\n            <input type=\"text\" id=\"custname\" name=\"custname\" required>\n        </div>\n        <div>\n            <label for=\"custtel\">Telephone:</label>\n            <input type=\"tel\" id=\"custtel\" name=\"custtel\">\n        </div>\n        <div>\n            <label for=\"custemail\">Email:</label>\n            <input type=\"email\" id=\"custemail\" name=\"custemail\">\n        </div>\n        <div>\n            <label for=\"size\">Size:</label>\n            <select id=\"size\" name=\"size\">\n                <option value=\"small\">Small</option>\n                <option value=\"medium\">Medium</option>\n                <option value=\"large\">Large</option>\n            </select>\n        </div>\n        <div>\n            <label for=\"comments\">Comments:</label>\n            <textarea id=\"comments\" name=\"comments\" rows=\"4\"></textarea>\n        </div>\n        <div>\n            <input type=\"submit\" value=\"Submit\">\n        </div>\n    </form>\n</body>\n</html>";

/// A small SVG image.
pub const SVG_IMAGE: &'static str = "<?xml version=\"1.0\" encoding=\"UTF-8\"?>\n<svg xmlns=\"http://www.w3.org/2000/svg\" width=\"100\" height=\"100\">\n    <rect width=\"100\" height=\"100\" fill=\"#3498db\"/>\n    <text x=\"50\" y=\"55\" font-size=\"20\" text-anchor=\"middle\" fill=\"white\">SVG</text>\n</svg>";

/// The robots.txt file.
pub const ROBOTS_TXT: &'static str = "User-agent: *\nDisallow: /deny\n";

/// A 1x1 PNG image.
pub open spec fn png_bytes() -> Seq<u8> {
    seq![
        0x89, 0x50, 0x4E, 0x47, 0x0D, 0x0A, 0x1A, 0x0A, 0x00, 0x00, 0x00, 0x0D,
        0x49, 0x48, 0x44, 0x52, 0x00, 0x00, 0x00, 0x01, 0x00, 0x00, 0x00, 0x01,
        0x08, 0x06, 0x00, 0x00, 0x00, 0x1F, 0x15, 0xC4, 0x89, 0x00, 0x00, 0x00,
        0x0A, 0x49, 0x44, 0x41, 0x54, 0x78, 0x9C, 0x63, 0x00, 0x01, 0x00, 0x00,
        0x05, 0x00, 0x01, 0x0D, 0x0A, 0x2D, 0xB4, 0x00, 0x00, 0x00, 0x00, 0x49,
        0x45, 0x4E, 0x44, 0xAE, 0x42, 0x60, 0x82,
    ]
}

fn png_vec() -> (r: Vec<u8>)
    ensures
        r@ == png_bytes(),
{
    let r: Vec<u8> = vec![
        0x89, 0x50, 0x4E, 0x47, 0x0D, 0x0A, 0x1A, 0x0A, 0x00, 0x00, 0x00, 0x0D,
        0x49, 0x48, 0x44, 0x52, 0x00, 0x00, 0x00, 0x01, 0x00, 0x00, 0x00, 0x01,
        0x08, 0x06, 0x00, 0x00, 0x00, 0x1F, 0x15, 0xC4, 0x89, 0x00, 0x00, 0x00,
        0x0A, 0x49, 0x44, 0x41, 0x54, 0x78, 0x9C, 0x63, 0x00, 0x01, 0x00, 0x00,
        0x05, 0x00, 0x01, 0x0D, 0x0A, 0x2D, 0xB4, 0x00, 0x00, 0x00, 0x00, 0x49,
        0x45, 0x4E, 0x44, 0xAE, 0x42, 0x60, 0x82,
    ];
    assert(r@ =~= png_bytes());
    r
}

/// A 1x1 JPEG image.
pub open spec fn jpeg_bytes() -> Seq<u8> {
    seq![
        0xFF, 0xD8, 0xFF, 0xE0, 0x00, 0x10, 0x4A, 0x46, 0x49, 0x46, 0x00, 0x01,
        0x01, 0x01, 0x00, 0x48, 0x00, 0x48, 0x00, 0x00, 0xFF, 0xDB, 0x00, 0x43,
        0x00, 0xFF, 0xFF, 0xFF, 0xFF, 0xFF, 0xFF, 0xFF, 0xFF, 0xFF, 0xFF, 0xFF,
        0xFF, 0xFF, 0xFF, 0xFF, 0xFF, 0xFF, 0xFF, 0xFF, 0xFF, 0xFF, 0xFF, 0xFF,
        0xFF, 0xFF, 0xFF, 0xFF, 0xFF, 0xFF, 0xFF, 0xFF, 0xFF, 0xFF, 0xFF, 0xFF,
        0xFF, 0xFF, 0xFF, 0xFF, 0xFF, 0xFF, 0xFF, 0xFF, 0xFF, 0xFF, 0xFF, 0xFF,
        0xFF, 0xFF, 0xFF, 0xFF, 0xFF, 0xFF, 0xFF, 0xFF, 0xFF, 0xFF, 0xFF, 0xFF,
        0xFF, 0xFF, 0xFF, 0xFF, 0xFF, 0xC0, 0x00, 0x0B, 0x08, 0x00, 0x01, 0x00,
        0x01, 0x01, 0x01, 0x11, 0x00, 0xFF, 0xC4, 0x00, 0x14, 0x00, 0x01, 0x00,
        0x00, 0x00, 0x00, 0x00, 0x00, 0x00, 0x00, 0x00, 0x00, 0x00, 0x00, 0x00,
        0x00, 0x00, 0x00, 0xFF, 0xDA, 0x00, 0x08, 0x01, 0x01, 0x00, 0x00, 0x3F,
        0x00, 0x7F, 0xFF, 0xD9,
    ]
}

fn jpeg_vec() -> (r: Vec<u8>)
    ensures
        r@ == jpeg_bytes(),
{
    let r: Vec<u8> = vec![
        0xFF, 0xD8, 0xFF, 0xE0, 0x00, 0x10, 0x4A, 0x46, 0x49, 0x46, 0x00, 0x01,
        0x01, 0x01, 0x00, 0x48, 0x00, 0x48, 0x00, 0x00, 0xFF, 0xDB, 0x00, 0x43,
        0x00, 0xFF, 0xFF, 0xFF, 0xFF, 0xFF, 0xFF, 0xFF, 0xFF, 0xFF, 0xFF, 0xFF,
        0xFF, 0xFF, 0xFF, 0xFF, 0xFF, 0xFF, 0xFF, 0xFF, 0xFF, 0xFF, 0xFF, 0xFF,
        0xFF, 0xFF, 0xFF, 0xFF, 0xFF, 0xFF, 0xFF, 0xFF, 0xFF, 0xFF, 0xFF, 0xFF,
        0xFF, 0xFF, 0xFF, 0xFF, 0xFF, 0xFF, 0xFF, 0xFF, 0xFF, 0xFF, 0xFF, 0xFF,
        0xFF, 0xFF, 0xFF, 0xFF, 0xFF, 0xFF, 0xFF, 0xFF, 0xFF, 0xFF, 0xFF, 0xFF,
        0xFF, 0xFF, 0xFF, 0xFF, 0xFF, 0xC0, 0x00, 0x0B, 0x08, 0x00, 0x01, 0x00,
        0x01, 0x01, 0x01, 0x11, 0x00, 0xFF, 0xC4, 0x00, 0x14, 0x00, 0x01, 0x00,
        0x00, 0x00, 0x00, 0x00, 0x00, 0x00, 0x00, 0x00, 0x00, 0x00, 0x00, 0x00,
        0x00, 0x00, 0x00, 0xFF, 0xDA, 0x00, 0x08, 0x01, 0x01, 0x00, 0x00, 0x3F,
        0x00, 0x7F, 0xFF, 0xD9,
    ];
    assert(r@ =~= jpeg_bytes());
    r
}

/// A 1x1 WebP image.
pub open spec fn webp_bytes() -> Seq<u8> {
    seq![
        0x52, 0x49, 0x46, 0x46, 0x1A, 0x00, 0x00, 0x00, 0x57, 0x45, 0x42, 0x50,
        0x56, 0x50, 0x38, 0x20, 0x0E, 0x00, 0x00, 0x00, 0x30, 0x01, 0x00, 0x9D,
        0x01, 0x2A, 0x01, 0x00, 0x01, 0x00, 0x00, 0x00,
    ]
}

fn webp_vec() -> (r: Vec<u8>)
    ensures
        r@ == webp_bytes(),
{
    let r: Vec<u8> = vec![
        0x52, 0x49, 0x46, 0x46, 0x1A, 0x00, 0x00, 0x00, 0x57, 0x45, 0x42, 0x50,
        0x56, 0x50, 0x38, 0x20, 0x0E, 0x00, 0x00, 0x00, 0x30, 0x01, 0x00, 0x9D,
        0x01, 0x2A, 0x01, 0x00, 0x01, 0x00, 0x00, 0x00,
    ];
    assert(r@ =~= webp_bytes());
    r
}

/// The sample JSON document of `/json`, compact, keys in order.
pub const JSON_SAMPLE: &'static str = "{\"slideshow\":{\"author\":\"Yours Truly\",\"date\":\"date of publication\",\"slides\":[{\"title\":\"Wake up to WonderWidgets!\",\"type\":\"all\"},{\"items\":[\"Why <em>WonderWidgets</em> are great\",\"Who <em>buys</em> WonderWidgets\"],\"title\":\"Overview\",\"type\":\"all\"}],\"title\":\"Sample Slide Show\"}}";

/// A 200 response with the given body and content type.
pub open spec fn body_view(body: Seq<u8>, content_type: Seq<char>) -> ResponseView {
    ResponseView { status: 200, headers: seq![("Content-Type"@, content_type)], body }
}

/// A 200 response with the given body and content type.
pub fn body_response(body: Vec<u8>, content_type: &str) -> (r: Response)
    ensures
        r@ == body_view(body@, content_type@),
{
    let mut headers: Vec<(String, String)> = Vec::new();
    headers.push((String::from_str("Content-Type"), String::from_str(content_type)));
    let r = Response { status: 200, headers, body };
    assert(r@.headers =~= seq![("Content-Type"@, content_type@)]);
    r
}

fn page(text: &str, content_type: &str) -> (r: Response)
    ensures
        r@ == body_view(utf8(text@), content_type@),
{
    let cs = chars_of(text);
    body_response(utf8_bytes(cs.as_slice()), content_type)
}

/// `/json`: the sample slideshow document.
pub fn json_handler(req: &Request) -> (r: Response)
    ensures
        r@ == body_view(utf8(JSON_SAMPLE@), "application/json"@),
{
    page(JSON_SAMPLE, "application/json")
}

/// `/html`: a sample HTML page.
pub fn html_handler(req: &Request) -> (r: Response)
    ensures
        r@ == body_view(utf8(HTML_PAGE@), "text/html; charset=utf-8"@),
{
    page(HTML_PAGE, "text/html; charset=utf-8")
}

/// `/xml`: a sample XML document.
pub fn xml_handler(req: &Request) -> (r: Response)
    ensures
        r@ == body_view(utf8(XML_PAGE@), "application/xml"@),
{
    page(XML_PAGE, "application/xml")
}

/// `/robots.txt`: keeps robots from `/deny`.
pub fn robots_txt_handler(req: &Request) -> (r: Response)
    ensures
        r@ == body_view(utf8(ROBOTS_TXT@), "text/plain"@),
{
    page(ROBOTS_TXT, "text/plain")
}

/// `/deny`: the page robots are kept from.
pub fn deny_handler(req: &Request) -> (r: Response)
    ensures
        r@ == body_view(utf8(DENY_PAGE@), "text/html; charset=utf-8"@),
{
    page(DENY_PAGE, "text/html; charset=utf-8")
}

/// `/encoding/utf8`: a page of UTF-8 text.
pub fn encoding_utf8_handler(req: &Request) -> (r: Response)
    ensures
        r@ == body_view(utf8(UTF8_PAGE@), "text/html; charset=utf-8"@),
{
    page(UTF8_PAGE, "text/html; charset=utf-8")
}

/// `/forms/post`: an HTML form that posts to `/post`.
pub fn forms_post_handler(req: &Request) -> (r: Response)
    ensures
        r@ == body_view(utf8(FORM_PAGE@), "text/html; charset=utf-8"@),
{
    page(FORM_PAGE, "text/html; charset=utf-8")
}

/// `/image/png`.
pub fn image_png_handler(req: &Request) -> (r: Response)
    ensures
        r@ == body_view(png_bytes(), "image/png"@),
{
    body_response(png_vec(), "image/png")
}

/// `/image/jpeg`.
pub fn image_jpeg_handler(req: &Request) -> (r: Response)
    ensures
        r@ == body_view(jpeg_bytes(), "image/jpeg"@),
{
    body_response(jpeg_vec(), "image/jpeg")
}

/// `/image/webp`.
pub fn image_webp_handler(req: &Request) -> (r: Response)
    ensures
        r@ == body_view(webp_bytes(), "image/webp"@),
{
    body_response(webp_vec(), "image/webp")
}

/// `/image/svg`.
pub fn image_svg_handler(req: &Request) -> (r: Response)
    ensures
        r@ == body_view(utf8(SVG_IMAGE@), "image/svg+xml"@),
{
    page(SVG_IMAGE, "image/svg+xml")
}

/// Whether `p` occurs in `s`.
pub open spec fn has_infix(s: Seq<char>, p: Seq<char>) -> bool {
    exists|i: int| 0 <= i && i + p.len() <= s.len() && #[trigger] s.subrange(i, i + p.len()) == p
}

/// Whether `p` occurs in `s`.
pub fn contains_text(s: &[char], p: &str) -> (r: bool)
    ensures
        r == has_infix(s@, p@),
{
    let pc = chars_of(p);
    if pc.len() > s.len() {
        return false;
    }
    let last = s.len() - pc.len();
    let mut i: usize = 0;
    while i <= last
        invariant
            pc@ == p@,
            pc@.len() <= s@.len(),
            last == s@.len() - pc@.len(),
            last <= s@.len() <= usize::MAX,
            i <= last + 1,
            forall|j: int| 0 <= j < i && j + p@.len() <= s@.len() ==> #[trigger] s@.subrange(j, j + p@.len()) != p@,
        decreases last + 1 - i,
    {
        let rest = slice_chars(s, i, s.len());
        if starts_with(rest.as_slice(), pc.as_slice()) {
            assert(rest@.subrange(0, pc@.len() as int) =~= s@.subrange(i as int, i + pc@.len()));
            return true;
        }
        assert(rest@.subrange(0, pc@.len() as int) =~= s@.subrange(i as int, i + pc@.len()));
        if i == last {
            return false;
        }
        i = i + 1;
    }
    false
}

/// The image picked for an `Accept` value already in lower case: WebP,
/// else SVG, else JPEG, else PNG.
pub open spec fn image_choice(accept: Seq<char>) -> ResponseView {
    if has_infix(accept, "image/webp"@) {
        body_view(webp_bytes(), "image/webp"@)
    } else if has_infix(accept, "image/svg"@) {
        body_view(utf8(SVG_IMAGE@), "image/svg+xml"@)
    } else if has_infix(accept, "image/jpeg"@) {
        body_view(jpeg_bytes(), "image/jpeg"@)
    } else {
        body_view(png_bytes(), "image/png"@)
    }
}

/// What `/image` answers: the choice for the lower-cased `Accept` header,
/// PNG when there is none.
pub open spec fn image_view(req: RequestView) -> ResponseView {
    image_choice(
        match header_get(req.headers, "Accept"@) {
            Some(a) => lowercase_of(a),
            None => Seq::empty(),
        },
    )
}

/// The image answer for an `Accept` value already in lower case.
pub fn image_for_accept(accept: &[char]) -> (r: Response)
    ensures
        r@ == image_choice(accept@),
{
    if contains_text(accept, "image/webp") {
        body_response(webp_vec(), "image/webp")
    } else if contains_text(accept, "image/svg") {
        page(SVG_IMAGE, "image/svg+xml")
    } else if contains_text(accept, "image/jpeg") {
        body_response(jpeg_vec(), "image/jpeg")
    } else {
        body_response(png_vec(), "image/png")
    }
}

/// `/image`: an image in the format the `Accept` header asks for.
pub fn image_handler(req: &Request) -> (r: Response)
    ensures
        r@ == image_view(req@),
{
    let a: Vec<char> = match header_value(&req.headers, "Accept") {
        Some(a) => {
            let l = crate::bridge::to_lower(a.as_str());
            chars_of(l.as_str())
        },
        None => Vec::new(),
    };
    image_for_accept(a.as_slice())
}

} // verus!
