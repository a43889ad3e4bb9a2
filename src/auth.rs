use vstd::prelude::*;
use crate::protocol::is_auth_success;
use crate::types::AuthToken;

verus! {

/// How long a fetched token is taken to be valid: an hour less than the
/// day the service grants, for safety.
pub const TOKEN_LIFETIME_MS: i64 = 82800000;

/// The single cached token; memory only.
pub struct TokenCache {
    pub cached: Option<AuthToken>,
}

impl TokenCache {
    /// An empty cache.
    pub fn new() -> (r: Self)
        ensures
            r.cached is None,
    {
        TokenCache { cached: None }
    }

    /// The cached token, if there is one that is not expired at `now_ms`.
    pub fn valid_token(&self, now_ms: i64) -> (r: Option<String>)
        ensures
            match self.cached {
                Some(t) => if t.expired_at(now_ms as int) { r is None } else { r == Some(t.token) },
                None => r is None,
            },
    {
        match &self.cached {
            Some(t) => {
                if t.is_expired(now_ms) {
                    None
                } else {
                    Some(t.token.clone())
                }
            },
            None => None,
        }
    }

    /// Cache a token fetched at `now_ms`; it expires after the shortened
    /// lifetime (at the latest representable instant, if that is sooner).
    pub fn store(&mut self, token: String, now_ms: i64)
        ensures
            final(self).cached is Some,
            final(self).cached->Some_0.token == token,
            final(self).cached->Some_0.issued_at_ms == now_ms,
            final(self).cached->Some_0.expires_at_ms == if now_ms + TOKEN_LIFETIME_MS > i64::MAX {
                i64::MAX as int
            } else {
                now_ms + TOKEN_LIFETIME_MS
            },
    {
        let expires: i128 = now_ms as i128 + TOKEN_LIFETIME_MS as i128;
        let expires_at_ms: i64 = if expires > i64::MAX as i128 { i64::MAX } else { expires as i64 };
        self.cached = Some(AuthToken { token, issued_at_ms: now_ms, expires_at_ms });
    }

    /// Take in the service's reply to the authentication message (`None`
    /// for a frame that is no text). Exactly `AUTH_SUCCESS` accepts; any
    /// other reply is a rejection, which drops the cached token and is
    /// reported as `Authentication failed: <reply>`.
    pub fn on_auth_reply(&mut self, reply: Option<&str>) -> (r: Result<(), String>)
        ensures
            match reply {
                Some(t) => if t@ == "AUTH_SUCCESS"@ {
                    r is Ok && *final(self) == *old(self)
                } else {
                    r is Err && r->Err_0@ == "Authentication failed: "@ + t@ && final(self).cached is None
                },
                None => r is Err && r->Err_0@ == "Unexpected auth response format"@ && final(self).cached is None,
            },
    {
        match reply {
            Some(t) => {
                if is_auth_success(t) {
                    Ok(())
                } else {
                    self.cached = None;
                    let mut msg = String::from_str("Authentication failed: ");
                    msg.append(t);
                    Err(msg)
                }
            },
            None => {
                self.cached = None;
                Err(String::from_str("Unexpected auth response format"))
            },
        }
    }

    /// Drop the cached token: the next authentication fetches a new one.
    pub fn invalidate_token(&mut self)
        ensures
            final(self).cached is None,
    {
        self.cached = None;
    }
}

} // verus!
