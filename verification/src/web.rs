//! What the HTTP endpoint decides: which request goes where, which webhook
//! is let in.
//!
//! The transport itself (listening, reading bodies, writing responses) is
//! outside the library; these functions take the already-extracted values
//! and return the decision the server acts on.

use vstd::prelude::*;
use vstd::string::StrSliceExecFns;
use crate::pathguard::is_acceptable_path_name;
use crate::pathguard::path_ok;

verus! {

/// Character-for-character string comparison.
pub fn str_eq(a: &str, b: &str) -> (r: bool)
    ensures
        r == (a@ == b@),
{
    let n = a.unicode_len();
    let m = b.unicode_len();
    if n != m {
        return false;
    }
    let mut i: usize = 0;
    while i < n
        invariant
            0 <= i <= n,
            n == a@.len(),
            n == b@.len(),
            forall|k: int| 0 <= k < i ==> a@[k] == b@[k],
        decreases n - i,
    {
        if a.get_char(i) != b.get_char(i) {
            return false;
        }
        i += 1;
    }
    proof {
        assert(a@ =~= b@);
    }
    true
}

/// What to do with a delivered webhook.
#[derive(PartialEq, Eq, Structural, Debug)]
pub enum HookDecision {
    /// The shared secret is configured and the request did not present it:
    /// the request is rejected with an error status.
    Reject,
    /// Structurally fine but irrelevant (not a push, or a branch deletion):
    /// acknowledged and dropped.
    Ignore,
    /// A relevant push event: handed to the dispatcher.
    Forward,
}

/// Decides a webhook's fate.  A configured secret must be matched exactly —
/// a missing or different token rejects the request; then only push events
/// that do not delete their branch are forwarded.
pub fn hook_decision(
    configured_secret: &Option<String>,
    provided_token: &Option<String>,
    object_kind: &str,
    deleted: bool,
) -> (d: HookDecision)
    ensures
        d == HookDecision::Reject <==> match *configured_secret {
            Some(secret) => match *provided_token {
                Some(token) => secret@ != token@,
                None => true,
            },
            None => false,
        },
        d != HookDecision::Reject ==> (d == HookDecision::Forward <==> (object_kind@ == "push"@
            && !deleted)),
{
    match configured_secret {
        Some(secret) => {
            match provided_token {
                Some(token) => {
                    if !str_eq(secret.as_str(), token.as_str()) {
                        return HookDecision::Reject;
                    }
                },
                None => {
                    return HookDecision::Reject;
                },
            }
        },
        None => {},
    }
    if str_eq(object_kind, "push") && !deleted {
        HookDecision::Forward
    } else {
        HookDecision::Ignore
    }
}

/// The method of an incoming request, as far as the router cares.
pub enum HttpMethod {
    Get,
    Post,
    Other,
}

/// Where an incoming request goes.
#[derive(PartialEq, Eq, Structural, Debug)]
pub enum Route {
    /// `POST /push`: the webhook endpoint.
    PushHook,
    /// A `GET` whose path the guard accepts: serve the artifact.
    Artifact,
    /// Everything else is answered "not found" — also guard rejections, so
    /// that a probe cannot tell "forbidden" from "absent".
    NotFound,
}

/// Routes one request.
pub fn route_request(method: &HttpMethod, path: &str) -> (r: Route)
    ensures
        r == Route::PushHook <==> (method is Post && path@ == "/push"@),
        r == Route::Artifact <==> (method is Get && path_ok(path@)),
        r == Route::NotFound <==> !(method is Post && path@ == "/push"@) && !(method is Get
            && path_ok(path@)),
{
    match method {
        HttpMethod::Post => {
            if str_eq(path, "/push") {
                Route::PushHook
            } else {
                Route::NotFound
            }
        },
        HttpMethod::Get => {
            if is_acceptable_path_name(path) {
                Route::Artifact
            } else {
                Route::NotFound
            }
        },
        HttpMethod::Other => Route::NotFound,
    }
}

} // verus!
