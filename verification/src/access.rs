//! What the outside world gets to see of a decision.
//!
//! Whoever taps learns only whether the door opened. Why a tap was turned
//! down is for the log alone: an answer that told a malformed field from a
//! wrong tag or a replay would help an attacker to search.

use crate::error::DenyReason;
use vstd::prelude::*;

verus! {

/// The path a holder of a genuine tag is sent to.
pub open spec fn granted_path() -> Seq<char> {
    "/secret"@
}

/// The path everybody else is sent to.
pub open spec fn denied_path() -> Seq<char> {
    "/static/access-denied.html"@
}

/// Where to send the client after a tap: to the secret files if the tap
/// was let in, and else to one and the same page for every reason.
pub fn redirect_for(verdict: &Result<(), DenyReason>) -> (path: &'static str)
    ensures
        verdict is Ok ==> path@ == granted_path(),
        verdict is Err ==> path@ == denied_path(),
{
    match verdict {
        Ok(_) => "/secret",
        Err(_) => "/static/access-denied.html",
    }
}

/// Whether a session may see the secret files: only one that a genuine tap
/// has marked with `1`.
pub fn session_is_authenticated(auth: Option<i32>) -> (authenticated: bool)
    ensures
        authenticated == (auth == Some(1i32)),
{
    match auth {
        Some(mark) => mark == 1,
        None => false,
    }
}

} // verus!
