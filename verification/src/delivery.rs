//! The delivery client's verified half: the request body, the bearer
//! header, and how a delivery attempt's outcome is classified and
//! reported. The HTTP call itself is a single POST with a fixed timeout,
//! performed by the caller; its outcome comes back here as a status code,
//! or as nothing on a transport-level error.

use vstd::prelude::*;
use vstd::string::StringExecFns;

use crate::json::{dec_nat, push_dec_u64};

verus! {

/// A delivery attempt succeeded exactly when the endpoint answered with a
/// 2xx status code.
pub fn status_is_success(status: u16) -> (r: bool)
    ensures
        r == (200 <= status < 300),
{
    200 <= status && status < 300
}

/// The `Authorization` header value for a source token.
pub fn bearer_header(token: &str) -> (r: String)
    ensures
        r@ == "Bearer "@ + token@,
{
    let mut r: String = "Bearer ".to_owned();
    r.append(token);
    r
}

/// The diagnostic line for a delivery outcome: `None` exactly when the
/// attempt succeeded (a 2xx status), a line naming the status for any
/// other status, and a line naming a transport-level failure when no
/// status came back at all. The batch is lost either way; nothing is
/// retried.
pub fn delivery_report(status: Option<u16>) -> (r: Option<String>)
    ensures
        r is None <==> (status matches Some(s) && 200 <= s < 300),
        match status {
            Some(s) => !(200 <= s < 300) ==> (r matches Some(line) && line@
                == "delivery failed: HTTP status "@ + dec_nat(s as int)),
            None => r matches Some(line) && line@ == "delivery failed: transport error"@,
        },
{
    match status {
        Some(s) => {
            if status_is_success(s) {
                None
            } else {
                let mut line: String = "delivery failed: HTTP status ".to_owned();
                push_dec_u64(&mut line, s as u64);
                Some(line)
            }
        },
        None => Some("delivery failed: transport error".to_owned()),
    }
}

} // verus!
