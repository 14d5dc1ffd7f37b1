//! The pipeline stage in front of protected routes: extract the bearer
//! credential, verify it, confirm a live session, and attach the resolved
//! user to the request — or reject with 401 before the handler runs. It
//! works on a typed request context and is bound to no transport.

use vstd::prelude::*;

use crate::session_store::{live_get, SessionEntryView, SessionStore};
use crate::strings::str_eq;
use crate::token::{verify, verify_outcome};

verus! {

/// What the pipeline stage sees of a request: the authorization header,
/// if one came.
pub struct RequestContext {
    pub authorization: Option<String>,
}

/// Where a request goes next: on to the handler with the resolved user
/// identifier, or straight to a 401 rejection.
#[derive(Clone, Copy, Debug, PartialEq, Eq, Structural)]
pub enum MiddlewareOutcome {
    Pass(u64),
    Reject,
}

/// The token inside a bearer-style header value, when it has that shape.
pub open spec fn bearer_token(header: Seq<char>) -> Option<Seq<char>> {
    if header.len() >= 7 && header.subrange(0, 7) == "Bearer "@ {
        Some(header.subrange(7, header.len() as int))
    } else {
        None
    }
}

/// The outcome `auth_middleware` is bound to: `Pass` with the session's
/// user exactly when a bearer header is present, its token verifies, a live
/// session record holds it, and the record agrees with the token's subject.
pub open spec fn middleware_outcome(
    sessions: Seq<SessionEntryView>,
    key: Seq<u8>,
    header: Option<Seq<char>>,
    now: u64,
) -> MiddlewareOutcome {
    match header {
        None => MiddlewareOutcome::Reject,
        Some(h) => match bearer_token(h) {
            None => MiddlewareOutcome::Reject,
            Some(tok) => match verify_outcome(tok, key, now) {
                Err(_) => MiddlewareOutcome::Reject,
                Ok(claims) => match live_get(sessions, tok, now) {
                    None => MiddlewareOutcome::Reject,
                    Some(uid) => if claims.subject != uid {
                        MiddlewareOutcome::Reject
                    } else {
                        MiddlewareOutcome::Pass(uid)
                    },
                },
            },
        },
    }
}

/// The view of the header the stage was handed.
pub open spec fn header_view(h: Option<String>) -> Option<Seq<char>> {
    match h {
        None => None,
        Some(s) => Some(s@),
    }
}

/// Run the stage once, ahead of the guarded handler.
pub fn auth_middleware(
    sessions: &SessionStore,
    key: &Vec<u8>,
    request: &RequestContext,
    now: u64,
) -> (r: MiddlewareOutcome)
    ensures
        r == middleware_outcome(sessions@, key@, header_view(request.authorization), now),
{
    let header = match &request.authorization {
        Some(h) => h,
        None => {
            return MiddlewareOutcome::Reject;
        },
    };
    let n = header.as_str().unicode_len();
    if n < 7 {
        return MiddlewareOutcome::Reject;
    }
    let prefix = header.as_str().substring_char(0, 7);
    if !str_eq(prefix, "Bearer ") {
        return MiddlewareOutcome::Reject;
    }
    let token = header.as_str().substring_char(7, n);
    let claims = match verify(token, key, now) {
        Ok(c) => c,
        Err(_) => {
            return MiddlewareOutcome::Reject;
        },
    };
    let uid = match sessions.get(token, now) {
        Some(uid) => uid,
        None => {
            return MiddlewareOutcome::Reject;
        },
    };
    if claims.subject != uid {
        MiddlewareOutcome::Reject
    } else {
        MiddlewareOutcome::Pass(uid)
    }
}

} // verus!
