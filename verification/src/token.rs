//! Bearer tokens and the rule for when one may still be handed out.

use crate::scope::ScopeSet;
use vstd::prelude::*;

verus! {

/// Seconds before its expiry from which a token is no longer handed out, so
/// that no token expires while the request carrying it is under way.
pub const SAFETY_MARGIN: u64 = 20;

/// Whether a token expiring at `expires_at` may be used at `now`: only while
/// `now` lies more than the safety margin before the expiry.
pub open spec fn usable_at(expires_at: u64, now: u64) -> bool {
    now + SAFETY_MARGIN < expires_at
}

/// What a [`Token`] holds, as mathematical values.
pub struct TokenView {
    pub value: Seq<char>,
    pub scopes: Seq<Seq<char>>,
    pub expires_at: u64,
}

/// A bearer credential: an opaque string, the scopes it was issued for and
/// the instant, in seconds since the epoch, at which it expires.
///
/// A token never changes once built; a refreshed token is a new value.
#[derive(Debug)]
pub struct Token {
    value: String,
    scopes: ScopeSet,
    expires_at: u64,
}

impl View for Token {
    type V = TokenView;

    closed spec fn view(&self) -> TokenView {
        TokenView { value: self.value@, scopes: self.scopes@, expires_at: self.expires_at }
    }
}

impl Token {
    /// A token with the given value, issued for `scopes` and expiring at
    /// `expires_at`.
    pub fn new(value: String, scopes: ScopeSet, expires_at: u64) -> (token: Token)
        ensures
            token@ == (TokenView { value: value@, scopes: scopes@, expires_at }),
    {
        Token { value, scopes, expires_at }
    }

    /// The credential string to present.
    pub fn as_str(&self) -> (value: &str)
        ensures
            value@ == self@.value,
    {
        self.value.as_str()
    }

    /// The scopes the token was issued for.
    pub fn scopes(&self) -> (scopes: &ScopeSet)
        ensures
            scopes@ == self@.scopes,
    {
        &self.scopes
    }

    /// The instant at which the token expires.
    pub fn expires_at(&self) -> (at: u64)
        ensures
            at == self@.expires_at,
    {
        self.expires_at
    }

    /// Whether the token must no longer be used at `now`: true from the
    /// safety margin before its expiry onwards.
    pub fn has_expired(&self, now: u64) -> (expired: bool)
        ensures
            expired == !usable_at(self@.expires_at, now),
    {
        self.expires_at <= SAFETY_MARGIN || now >= self.expires_at - SAFETY_MARGIN
    }

    /// An independent copy of the token.
    pub fn duplicate(&self) -> (copy: Token)
        ensures
            copy@ == self@,
    {
        Token {
            value: self.value.clone(),
            scopes: self.scopes.duplicate(),
            expires_at: self.expires_at,
        }
    }
}

} // verus!
