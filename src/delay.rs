use vstd::prelude::*;

use crate::auth::json_view;
use crate::echo::{get_handler, method_json};
use crate::streaming::{capped_count, path_count};
use crate::types::{Request, Response};

verus! {

/// The longest wait of `/delay/<n>`, in seconds.
pub const MAX_DELAY: u64 = 10;

/// The wait `/delay/<n>` asks for: `n` seconds, 1 by default, saturating at
/// 10.
pub open spec fn delay_of(path: Seq<char>) -> nat {
    capped_count(path, "delay"@, 1, MAX_DELAY as nat)
}

/// The seconds to wait before answering `/delay/<n>`.
pub fn delay_seconds(req: &Request) -> (r: u64)
    ensures
        r as nat == delay_of(req@.path),
        r <= MAX_DELAY,
{
    path_count(req.path.as_str(), "delay", 1, MAX_DELAY)
}

/// What `/delay/<n>` answers once the wait is over: the `/get` echo.
pub fn delay_response(req: &Request) -> (r: Response)
    ensures
        r@ == json_view(method_json(req@)),
{
    get_handler(req)
}

} // verus!
