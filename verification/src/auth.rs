//! The auth gate's decision logic.
//!
//! Validating a bearer token's signature and asking the external authority
//! whether the identity may stream the resource are outside calls made by
//! the transport layer; their raw outcomes come back as plain values, and
//! every decision about them — which claims are acceptable, what each reply
//! means, how failures are classified — is made and proved here.

use vstd::prelude::*;
use crate::messages::{Auth, StandardErrors, StandardErrorsV};

verus! {

/// The claims a bearer token carries once its signature and validity
/// window have been checked.
pub struct Claims {
    /// Expiry time.
    pub exp: u64,
    /// Issue time.
    pub iat: u64,
    /// Not-before time.
    pub nbf: u64,
    /// Token subject; only access tokens are accepted here.
    pub sub: String,
    /// The identity the token grants.
    pub user: i64,
    /// Granted scope.
    pub scope: String,
}

/// What the external authority answered, when it answered at all.
pub struct GateReply {
    /// HTTP-equivalent status of the reply.
    pub status: u16,
    /// The reply body.
    pub body: String,
}

impl Auth {
    /// Classifies the outcome of token validation.  A validator error is an
    /// internal authentication failure carrying its text; a token whose
    /// subject is not an access token is refused the same way; only a valid
    /// access token passes, with its claims.
    pub fn check_token(&self, decoded: Result<Claims, String>) -> (r: Result<
        Claims,
        StandardErrors,
    >)
        ensures
            match decoded {
                Ok(c) => {
                    if c.sub@ == "access"@ {
                        r matches Ok(c2) && c2 == c
                    } else {
                        r matches Err(e) && e@ == StandardErrorsV::Internal(
                            "JWT Auth error: invalid token subject"@,
                        )
                    }
                },
                Err(t) => r matches Err(e) && e@ == StandardErrorsV::Internal(
                    "JWT Auth error: "@ + t@,
                ),
            },
    {
        match decoded {
            Ok(c) => {
                if c.sub == "access".to_owned() {
                    Ok(c)
                } else {
                    Err(
                        StandardErrors::Internal("JWT Auth error: invalid token subject".to_owned()),
                    )
                }
            },
            Err(t) => {
                let mut text = String::new();
                text.append("JWT Auth error: ");
                text.append(t.as_str());
                Err(StandardErrors::Internal(text))
            },
        }
    }

    /// The request body sent to the external authority: the identity the
    /// token granted and the resource it asks to stream.
    pub fn gate_request(&self, user: i64) -> (r: Vec<(String, i64)>)
        ensures
            r@.len() == 2,
            r@[0].0@ == "user_d"@,
            r@[0].1 == user,
            r@[1].0@ == "script_id"@,
            r@[1].1 == self.script_id,
    {
        let mut out: Vec<(String, i64)> = Vec::new();
        out.push(("user_d".to_owned(), user));
        out.push(("script_id".to_owned(), self.script_id));
        out
    }
}

/// Classifies the authority's reply.  No reply (transport failure, timeout
/// or an unreadable body) is an internal fault; a reply other than 200 is a
/// denial carrying the authority's own words; 200 authorizes the identity.
pub fn classify_gate(user: i64, reply: Option<GateReply>) -> (r: Result<i64, StandardErrors>)
    ensures
        match reply {
            None => r matches Err(e) && e@ == StandardErrorsV::FatalError("internal_error"@),
            Some(g) => {
                if g.status == 200 {
                    r == Ok::<i64, StandardErrors>(user)
                } else {
                    r matches Err(e) && e@ == StandardErrorsV::FatalError(g.body@)
                }
            },
        },
{
    match reply {
        None => Err(StandardErrors::FatalError("internal_error".to_owned())),
        Some(g) => {
            if g.status == 200 {
                Ok(user)
            } else {
                Err(StandardErrors::FatalError(g.body))
            }
        },
    }
}

} // verus!
