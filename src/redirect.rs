use vstd::prelude::*;

use crate::auth::bare_view;
use crate::params::{parse_query, proto_prefix, protocol_prefix, query_lookup, query_map, query_of, query_part, query_value};
use crate::streaming::{num_or, path_number_or};
use crate::text::{chars_of, decimal, parse_uint, parse_uint_chars, push_decimal, push_str, string_of};
use crate::types::{Request, RequestView, Response, ResponseView};
use crate::auth::one_header_response;

verus! {

/// The largest value of a 32-bit unsigned number.
pub const U32_MAX: u64 = 0xFFFF_FFFF;

/// What `/<base>/<n>` answers: 302 to `/get` when `n` is at most 1 (or
/// missing), else 302 to `/<target>/<n - 1>` under the same protocol prefix.
pub open spec fn redirect_view(req: RequestView, base: Seq<char>, target: Seq<char>) -> ResponseView {
    let n = num_or(req.path, base, U32_MAX as nat, 1);
    if n <= 1 {
        bare_view(302, seq![("Location"@, "/get"@)])
    } else {
        bare_view(
            302,
            seq![
                ("Location"@, proto_prefix(req.path) + seq!['/'] + target + seq!['/'] + decimal(
                    (n - 1) as nat,
                )),
            ],
        )
    }
}

fn redirect_steps(req: &Request, base: &str, target: &str) -> (r: Response)
    ensures
        r@ == redirect_view(req@, base@, target@),
{
    let n = path_number_or(req.path.as_str(), base, U32_MAX, 1);
    if n <= 1 {
        one_header_response(302, "Location", String::from_str("/get"))
    } else {
        let prefix = protocol_prefix(req.path.as_str());
        let mut loc: Vec<char> = chars_of(prefix.as_str());
        loc.push('/');
        push_str(&mut loc, target);
        loc.push('/');
        push_decimal(&mut loc, n - 1);
        assert(loc@ =~= proto_prefix(req@.path) + seq!['/'] + target@ + seq!['/'] + decimal(
            (n - 1) as nat,
        ));
        one_header_response(302, "Location", string_of(loc.as_slice()))
    }
}

/// `/redirect/<n>`: one hop of an `n`-hop redirect chain.
pub fn redirect_handler(req: &Request) -> (r: Response)
    ensures
        r@ == redirect_view(req@, "redirect"@, "redirect"@),
{
    redirect_steps(req, "redirect", "redirect")
}

/// `/relative-redirect/<n>`: as `/redirect/<n>`, under its own name.
pub fn relative_redirect_handler(req: &Request) -> (r: Response)
    ensures
        r@ == redirect_view(req@, "relative-redirect"@, "relative-redirect"@),
{
    redirect_steps(req, "relative-redirect", "relative-redirect")
}

/// `/absolute-redirect/<n>`: answers exactly as `/redirect/<n>` under the
/// same prefix: the hop count is read from this path, the chain continues at
/// `/redirect/<n - 1>`.
pub fn absolute_redirect_handler(req: &Request) -> (r: Response)
    ensures
        r@ == redirect_view(req@, "absolute-redirect"@, "redirect"@),
{
    redirect_steps(req, "absolute-redirect", "redirect")
}

/// What `/redirect-to` answers: its `status_code` query parameter when that
/// is a code in 100..=599 (302 otherwise) with `Location` set to its `url`
/// parameter, taken as it stands (`/get` when missing).
pub open spec fn redirect_to_view(req: RequestView) -> ResponseView {
    let m = query_map(query_of(req.path));
    let url = match query_lookup(m, "url"@) {
        Some(u) => u,
        None => "/get"@,
    };
    let status = match query_lookup(m, "status_code"@) {
        Some(v) => match parse_uint(v, 599) {
            Some(c) => if c >= 100 {
                c
            } else {
                302
            },
            None => 302,
        },
        None => 302,
    };
    bare_view(status as u16, seq![("Location"@, url)])
}

/// `/redirect-to?url=<url>&status_code=<code>`.
pub fn redirect_to_handler(req: &Request) -> (r: Response)
    ensures
        r@ == redirect_to_view(req@),
{
    let q = query_part(req.path.as_str());
    let pairs = parse_query(q.as_str());
    let url = match query_value(&pairs, "url") {
        Some(u) => u,
        None => String::from_str("/get"),
    };
    let status: u64 = match query_value(&pairs, "status_code") {
        Some(v) => {
            let cs = chars_of(v.as_str());
            match parse_uint_chars(cs.as_slice(), 599) {
                Some(c) => if c >= 100 {
                    c
                } else {
                    302
                },
                None => 302,
            }
        },
        None => 302,
    };
    one_header_response(status as u16, "Location", url)
}

} // verus!
