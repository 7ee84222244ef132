use vstd::prelude::*;

use crate::bridge::{base64_decoded, decode_base64, hex_encode, hex_lower, json_quoted, random_bytes};
use crate::json::{json_object, json_object_text, json_string};
use crate::params::{path_params, path_segments, query_lookup, query_pair, query_value, span};
use crate::text::{bytes_eq, chars_of, contains_char, has_prefix, push_str, slice_chars, split, split_chars, starts_with, string_of, trim, trim_char, trim_chars, trim_matching, utf8, utf8_bytes};
use crate::types::{HeadersView, Request, RequestView, Response, ResponseView, header_get, header_set, header_value, headers_view, lemma_set_on_empty, opt_view, put_pair};

verus! {

/// `{"authenticated":true,"<key>":"<who>"}`
pub open spec fn authenticated_json(key: Seq<char>, who: Seq<char>) -> Seq<char> {
    json_object(seq![("authenticated"@, "true"@), (key, json_quoted(who))])
}

/// A 200 response with a JSON body.
pub open spec fn json_view(json: Seq<char>) -> ResponseView {
    ResponseView {
        status: 200,
        headers: seq![("Content-Type"@, "application/json"@)],
        body: utf8(json),
    }
}

/// A response with a plain-text body.
pub open spec fn text_view(status: u16, text: Seq<char>) -> ResponseView {
    ResponseView { status, headers: seq![("Content-Type"@, "text/plain"@)], body: utf8(text) }
}

/// A response with the given headers and an empty body.
pub open spec fn bare_view(status: u16, headers: HeadersView) -> ResponseView {
    ResponseView { status, headers, body: Seq::empty() }
}

/// `Authorization: Basic <b64>` whose decoded bytes are exactly the UTF-8 of
/// `user:pass`, split at its first colon; so a user name with a colon never
/// matches.
pub open spec fn basic_ok(auth: Option<Seq<char>>, user: Seq<char>, pass: Seq<char>) -> bool {
    match auth {
        Some(a) => has_prefix(a, "Basic "@) && !user.contains(':') && base64_decoded(
            a.subrange("Basic "@.len() as int, a.len() as int),
        ) == Some(utf8(user + seq![':'] + pass)),
        None => false,
    }
}

/// What the basic-auth endpoints answer; `hidden` answers a failure with 404
/// and no challenge.
pub open spec fn basic_auth_view(req: RequestView, base: Seq<char>, hidden: bool) -> ResponseView {
    match path_params(req.path, base, 2) {
        None => text_view(400, "Invalid parameters"@),
        Some(ps) => if basic_ok(header_get(req.headers, "Authorization"@), ps[0], ps[1]) {
            json_view(authenticated_json("user"@, ps[0]))
        } else if hidden {
            text_view(404, "Not Found"@)
        } else {
            bare_view(401, seq![("WWW-Authenticate"@, "Basic realm=\"Fake Realm\""@)])
        },
    }
}

/// Basic auth with the exact credentials succeeds with the user's name;
/// without an `Authorization` header it fails, with 401 and a challenge, or
/// with 404 from the hidden variant.
pub proof fn lemma_basic_auth_outcomes(req: RequestView, base: Seq<char>, hidden: bool)
    requires
        path_params(req.path, base, 2).is_some(),
    ensures
        ({
            let ps = path_params(req.path, base, 2).unwrap();
            basic_ok(header_get(req.headers, "Authorization"@), ps[0], ps[1]) ==> basic_auth_view(
                req,
                base,
                hidden,
            ) == json_view(authenticated_json("user"@, ps[0]))
        }),
        header_get(req.headers, "Authorization"@).is_none() ==> basic_auth_view(req, base, hidden).status
            == (if hidden {
            404u16
        } else {
            401u16
        }),
        header_get(req.headers, "Authorization"@).is_none() && !hidden ==> basic_auth_view(
            req,
            base,
            hidden,
        ).headers == seq![("WWW-Authenticate"@, "Basic realm=\"Fake Realm\""@)],
{
}

/// Builds a 200 response with a JSON body.
pub fn json_response(json: &[char]) -> (r: Response)
    ensures
        r@ == json_view(json@),
{
    let r = Response::new(200).with_json(json);
    proof {
        lemma_set_on_empty("Content-Type"@, "application/json"@);
    }
    r
}

/// Builds a response with a plain-text body.
pub fn text_response(status: u16, text: &str) -> (r: Response)
    ensures
        r@ == text_view(status, text@),
{
    let r = Response::new(status).with_text(text);
    proof {
        lemma_set_on_empty("Content-Type"@, "text/plain"@);
    }
    r
}

/// Builds a response with one header and an empty body.
pub fn one_header_response(status: u16, name: &str, value: String) -> (r: Response)
    ensures
        r@ == bare_view(status, seq![(name@, value@)]),
{
    let mut headers: Vec<(String, String)> = Vec::new();
    headers.push((String::from_str(name), value));
    let r = Response { status, headers, body: Vec::new() };
    assert(r@.headers =~= seq![(name@, value@)]);
    assert(r@.body =~= Seq::<u8>::empty());
    r
}

fn authenticated_text(key: &str, who: &str) -> (r: Vec<char>)
    ensures
        r@ == authenticated_json(key@, who@),
{
    let mut es: Vec<(String, Vec<char>)> = Vec::new();
    es.push((String::from_str("authenticated"), chars_of("true")));
    es.push((String::from_str(key), json_string(who)));
    let r = json_object_text(&es);
    assert(es@.map_values(|e: (String, Vec<char>)| (e.0@, e.1@)) =~= seq![
        ("authenticated"@, "true"@),
        (key@, json_quoted(who@)),
    ]);
    r
}

/// Whether decoded basic credentials are exactly `user:pass`, split at the
/// first colon: the UTF-8 of `user`, a colon, the UTF-8 of `pass`, with no
/// colon in `user`.
pub fn credentials_match(decoded: &[u8], user: &str, pass: &str) -> (r: bool)
    ensures
        r == (!user@.contains(':') && decoded@ == utf8(user@ + seq![':'] + pass@)),
{
    let mut expect = chars_of(user);
    if contains_char(expect.as_slice(), ':') {
        return false;
    }
    expect.push(':');
    push_str(&mut expect, pass);
    assert(expect@ =~= user@ + seq![':'] + pass@);
    let eb = utf8_bytes(expect.as_slice());
    bytes_eq(decoded, eb.as_slice())
}

fn basic_matches(auth: &Option<String>, user: &String, pass: &String) -> (r: bool)
    ensures
        r == basic_ok(opt_view(*auth), user@, pass@),
{
    match auth {
        None => false,
        Some(a) => {
            let a = chars_of(a.as_str());
            let p = chars_of("Basic ");
            if !starts_with(a.as_slice(), p.as_slice()) {
                return false;
            }
            let u = chars_of(user.as_str());
            if contains_char(u.as_slice(), ':') {
                return false;
            }
            let cred = slice_chars(a.as_slice(), p.len(), a.len());
            let cred = string_of(cred.as_slice());
            match decode_base64(cred.as_str()) {
                Err(_) => false,
                Ok(bytes) => credentials_match(bytes.as_slice(), user.as_str(), pass.as_str()),
            }
        },
    }
}

fn basic_auth(req: &Request, base: &str, hidden: bool) -> (r: Response)
    ensures
        r@ == basic_auth_view(req@, base@, hidden),
{
    match path_segments(req.path.as_str(), base, 2) {
        None => text_response(400, "Invalid parameters"),
        Some(ps) => {
            let auth = header_value(&req.headers, "Authorization");
            if basic_matches(&auth, &ps[0], &ps[1]) {
                let json = authenticated_text("user", ps[0].as_str());
                json_response(json.as_slice())
            } else if hidden {
                text_response(404, "Not Found")
            } else {
                one_header_response(
                    401,
                    "WWW-Authenticate",
                    String::from_str("Basic realm=\"Fake Realm\""),
                )
            }
        },
    }
}

/// `/basic-auth/<user>/<passwd>`: 200 with the user name when the basic
/// credentials are exactly these, else 401 with a `Basic` challenge.
pub fn basic_auth_handler(req: &Request) -> (r: Response)
    ensures
        r@ == basic_auth_view(req@, "basic-auth"@, false),
{
    basic_auth(req, "basic-auth", false)
}

/// `/hidden-basic-auth/<user>/<passwd>`: as basic auth, but a failure is a
/// plain 404 with no challenge.
pub fn hidden_basic_auth_handler(req: &Request) -> (r: Response)
    ensures
        r@ == basic_auth_view(req@, "hidden-basic-auth"@, true),
{
    basic_auth(req, "hidden-basic-auth", true)
}

// ---------------------------------------------------------------------------
// Digest
// ---------------------------------------------------------------------------

/// The `key=value` parameters of a `Digest` header: the text after the
/// scheme split on commas, each piece trimmed and split at its first `=`,
/// quotes stripped from both ends of the value; pieces without `=` are
/// skipped and a later key replaces an earlier one.
pub open spec fn digest_pairs(pieces: Seq<Seq<char>>) -> HeadersView
    decreases pieces.len(),
{
    if pieces.len() == 0 {
        Seq::empty()
    } else {
        let acc = digest_pairs(pieces.drop_last());
        let t = trim(pieces.last());
        if t.contains('=') {
            let kv = query_pair(t);
            header_set(acc, kv.0, trim_char(kv.1, '"'))
        } else {
            acc
        }
    }
}

pub open spec fn digest_params(h: Seq<char>) -> HeadersView {
    if has_prefix(h, "Digest "@) {
        digest_pairs(split(h.subrange("Digest "@.len() as int, h.len() as int), ','))
    } else {
        Seq::empty()
    }
}

/// The parameters of a `Digest` authorization header.
pub fn parse_digest_auth(auth_header: &str) -> (r: Vec<(String, String)>)
    ensures
        headers_view(r@) == digest_params(auth_header@),
{
    let mut r: Vec<(String, String)> = Vec::new();
    let h = chars_of(auth_header);
    let p = chars_of("Digest ");
    if !starts_with(h.as_slice(), p.as_slice()) {
        assert(headers_view(r@) =~= digest_params(auth_header@));
        return r;
    }
    let rest = slice_chars(h.as_slice(), p.len(), h.len());
    let pieces = split_chars(rest.as_slice(), ',');
    let ghost ps = split(rest@, ',');
    let mut i: usize = 0;
    assert(headers_view(r@) =~= digest_pairs(ps.subrange(0, 0)));
    while i < pieces.len()
        invariant
            i <= pieces@.len(),
            pieces@.len() == ps.len(),
            forall|j: int| 0 <= j < ps.len() ==> (#[trigger] pieces@[j])@ == ps[j],
            headers_view(r@) == digest_pairs(ps.subrange(0, i as int)),
        decreases pieces@.len() - i,
    {
        assert(ps.subrange(0, i + 1).drop_last() =~= ps.subrange(0, i as int));
        assert(ps.subrange(0, i + 1).last() == ps[i as int]);
        let t = trim_chars(pieces[i].as_slice());
        if contains_char(t.as_slice(), '=') {
            let stops = vec!['='];
            assert(stops@ =~= seq!['=']);
            let k = span(t.as_slice(), stops.as_slice());
            proof {
                assert(stops@[0] == '=');
                crate::params::lemma_span_stops_at(t@, stops@, '=');
            }
            let key = slice_chars(t.as_slice(), 0, k);
            let tl = t.len();
            let value = slice_chars(t.as_slice(), k + 1, tl);
            let value = trim_matching(value.as_slice(), '"');
            put_pair(&mut r, string_of(key.as_slice()), string_of(value.as_slice()));
        }
        i = i + 1;
    }
    assert(ps.subrange(0, ps.len() as int) =~= ps);
    r
}

/// A `Digest` authorization whose `username` parameter is the expected user;
/// the response hash is not checked.
pub open spec fn digest_ok(auth: Option<Seq<char>>, user: Seq<char>) -> bool {
    match auth {
        Some(a) => has_prefix(a, "Digest "@) && query_lookup(digest_params(a), "username"@) == Some(
            user,
        ),
        None => false,
    }
}

/// The digest challenge; with an algorithm it stands before `qop`.
pub open spec fn digest_challenge(
    qop: Seq<char>,
    algorithm: Option<Seq<char>>,
    nonce: Seq<char>,
    opaque: Seq<char>,
) -> Seq<char> {
    "Digest realm=\"Fake Realm\", nonce=\""@ + nonce + "\", opaque=\""@ + opaque + match algorithm {
        Some(a) => "\", algorithm=\""@ + a,
        None => Seq::empty(),
    } + "\", qop=\""@ + qop + "\""@
}

/// What the digest endpoints answer, given the nonce and opaque values to
/// put in a challenge. With `with_algorithm` the path holds a fourth
/// parameter, the algorithm.
pub open spec fn digest_auth_view(
    req: RequestView,
    with_algorithm: bool,
    nonce: Seq<char>,
    opaque: Seq<char>,
) -> ResponseView {
    match path_params(req.path, "digest-auth"@, if with_algorithm { 4 } else { 3 }) {
        None => text_view(400, "Invalid parameters"@),
        Some(ps) => if digest_ok(header_get(req.headers, "Authorization"@), ps[1]) {
            json_view(authenticated_json("user"@, ps[1]))
        } else {
            bare_view(
                401,
                seq![
                    ("WWW-Authenticate"@, digest_challenge(
                        ps[0],
                        if with_algorithm { Some(ps[3]) } else { None },
                        nonce,
                        opaque,
                    )),
                ],
            )
        },
    }
}

/// A digest endpoint's answer for some nonce and opaque value, which are
/// sixteen random bytes in hexadecimal when a challenge is given.
pub open spec fn digest_answer(req: RequestView, with_algorithm: bool, r: ResponseView) -> bool {
    exists|n: Seq<char>, o: Seq<char>|
        r == digest_auth_view(req, with_algorithm, n, o) && (digest_challenged(req, with_algorithm)
            ==> (exists|b: Seq<u8>| b.len() == 16 && n == hex_lower(b)) && (exists|b: Seq<u8>|
            b.len() == 16 && o == hex_lower(b)))
}

/// Whether a digest request will be answered with a challenge.
pub open spec fn digest_challenged(req: RequestView, with_algorithm: bool) -> bool {
    match path_params(req.path, "digest-auth"@, if with_algorithm { 4 } else { 3 }) {
        None => false,
        Some(ps) => !digest_ok(header_get(req.headers, "Authorization"@), ps[1]),
    }
}

fn digest_matches(auth: &Option<String>, user: &String) -> (r: bool)
    ensures
        r == digest_ok(opt_view(*auth), user@),
{
    match auth {
        None => false,
        Some(a) => {
            let ac = chars_of(a.as_str());
            let p = chars_of("Digest ");
            if !starts_with(ac.as_slice(), p.as_slice()) {
                return false;
            }
            let params = parse_digest_auth(a.as_str());
            match query_value(&params, "username") {
                Some(u) => u == *user,
                None => false,
            }
        },
    }
}

/// Whether a digest request will be answered with a challenge.
pub fn digest_needs_challenge(req: &Request, with_algorithm: bool) -> (r: bool)
    ensures
        r == digest_challenged(req@, with_algorithm),
{
    let k: usize = if with_algorithm {
        4
    } else {
        3
    };
    match path_segments(req.path.as_str(), "digest-auth", k) {
        None => false,
        Some(ps) => {
            let auth = header_value(&req.headers, "Authorization");
            !digest_matches(&auth, &ps[1])
        },
    }
}

/// The digest endpoints' answer with the given nonce and opaque values.
pub fn digest_auth_response(req: &Request, with_algorithm: bool, nonce: &str, opaque: &str) -> (r:
    Response)
    ensures
        r@ == digest_auth_view(req@, with_algorithm, nonce@, opaque@),
{
    let k: usize = if with_algorithm {
        4
    } else {
        3
    };
    match path_segments(req.path.as_str(), "digest-auth", k) {
        None => text_response(400, "Invalid parameters"),
        Some(ps) => {
            let auth = header_value(&req.headers, "Authorization");
            if digest_matches(&auth, &ps[1]) {
                let json = authenticated_text("user", ps[1].as_str());
                json_response(json.as_slice())
            } else {
                let mut c: Vec<char> = Vec::new();
                push_str(&mut c, "Digest realm=\"Fake Realm\", nonce=\"");
                push_str(&mut c, nonce);
                push_str(&mut c, "\", opaque=\"");
                push_str(&mut c, opaque);
                if with_algorithm {
                    push_str(&mut c, "\", algorithm=\"");
                    push_str(&mut c, ps[3].as_str());
                }
                push_str(&mut c, "\", qop=\"");
                push_str(&mut c, ps[0].as_str());
                push_str(&mut c, "\"");
                let ghost alg = if with_algorithm {
                    Some(ps@[3]@)
                } else {
                    None
                };
                assert(c@ =~= digest_challenge(ps@[0]@, alg, nonce@, opaque@));
                one_header_response(401, "WWW-Authenticate", string_of(c.as_slice()))
            }
        },
    }
}

/// A fresh nonce: sixteen random bytes in lower-case hexadecimal.
pub fn generate_nonce() -> (r: String)
    ensures
        exists|b: Seq<u8>| b.len() == 16 && r@ == hex_lower(b),
{
    let b = random_bytes(16);
    let r = hex_encode(b.as_slice());
    assert(b@.len() == 16 && r@ == hex_lower(b@));
    r
}

fn digest_auth(req: &Request, with_algorithm: bool) -> (r: Response)
    ensures
        digest_answer(req@, with_algorithm, r@),
{
    if digest_needs_challenge(req, with_algorithm) {
        let nonce = generate_nonce();
        let opaque = generate_nonce();
        let r = digest_auth_response(req, with_algorithm, nonce.as_str(), opaque.as_str());
        assert(r@ == digest_auth_view(req@, with_algorithm, nonce@, opaque@));
        r
    } else {
        let r = digest_auth_response(req, with_algorithm, "", "");
        assert(r@ == digest_auth_view(req@, with_algorithm, ""@, ""@));
        r
    }
}

/// `/digest-auth/<qop>/<user>/<passwd>`: 200 when a `Digest` authorization
/// names the user (the password is never checked); otherwise 401 with a
/// challenge carrying a fresh random nonce and opaque value.
pub fn digest_auth_handler(req: &Request) -> (r: Response)
    ensures
        digest_answer(req@, false, r@),
{
    digest_auth(req, false)
}

/// `/digest-auth/<qop>/<user>/<passwd>/<algorithm>`: as the digest endpoint,
/// the challenge also naming the algorithm.
pub fn digest_auth_algorithm_handler(req: &Request) -> (r: Response)
    ensures
        digest_answer(req@, true, r@),
{
    digest_auth(req, true)
}

// ---------------------------------------------------------------------------
// Bearer
// ---------------------------------------------------------------------------

/// What `/bearer` answers: any `Bearer <token>` authenticates.
pub open spec fn bearer_view(req: RequestView) -> ResponseView {
    match header_get(req.headers, "Authorization"@) {
        Some(a) => if has_prefix(a, "Bearer "@) {
            json_view(
                authenticated_json("token"@, a.subrange("Bearer "@.len() as int, a.len() as int)),
            )
        } else {
            bare_view(401, seq![("WWW-Authenticate"@, "Bearer"@)])
        },
        None => bare_view(401, seq![("WWW-Authenticate"@, "Bearer"@)]),
    }
}

/// `/bearer`: 200 with the token for any `Bearer` authorization, else 401.
pub fn bearer_handler(req: &Request) -> (r: Response)
    ensures
        r@ == bearer_view(req@),
{
    match header_value(&req.headers, "Authorization") {
        Some(a) => {
            let ac = chars_of(a.as_str());
            let p = chars_of("Bearer ");
            if starts_with(ac.as_slice(), p.as_slice()) {
                let token = slice_chars(ac.as_slice(), p.len(), ac.len());
                let token = string_of(token.as_slice());
                let json = authenticated_text("token", token.as_str());
                json_response(json.as_slice())
            } else {
                one_header_response(401, "WWW-Authenticate", String::from_str("Bearer"))
            }
        },
        None => one_header_response(401, "WWW-Authenticate", String::from_str("Bearer")),
    }
}

} // verus!
