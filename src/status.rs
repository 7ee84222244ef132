use vstd::prelude::*;

use crate::auth::{text_response, text_view};
use crate::params::{digits_param, path_digits};
use crate::text::{decimal, parse_uint, parse_uint_chars, push_decimal, push_str, string_of};
use crate::types::{Request, RequestView, Response, ResponseView};

verus! {

/// The status `/status/<code>` answers with: the code when it lies in
/// 100..=599, 400 for any other code however many digits it has, 200 when
/// no code follows.
pub open spec fn status_code_of(path: Seq<char>) -> u16 {
    match digits_param(path, "status"@) {
        None => 200,
        Some(d) => match parse_uint(d, 599) {
            Some(c) => if c >= 100 {
                c as u16
            } else {
                400
            },
            None => 400,
        },
    }
}

/// What `/status/<code>` answers: that status with the text `Status: <code>`.
pub open spec fn status_view(req: RequestView) -> ResponseView {
    let c = status_code_of(req.path);
    text_view(c, "Status: "@ + decimal(c as nat))
}

/// `/status/<code>`.
pub fn status_handler(req: &Request) -> (r: Response)
    ensures
        r@ == status_view(req@),
{
    let c: u16 = match path_digits(req.path.as_str(), "status") {
        None => 200,
        Some(d) => match parse_uint_chars(d.as_slice(), 599) {
            Some(c) => if c >= 100 {
                c as u16
            } else {
                400
            },
            None => 400,
        },
    };
    let mut t: Vec<char> = Vec::new();
    push_str(&mut t, "Status: ");
    push_decimal(&mut t, c as u64);
    let t = string_of(t.as_slice());
    text_response(c, t.as_str())
}

} // verus!
