//! The self-signed assertion of a service account: its claim set, the text
//! that is signed, and its compact form.

use crate::credentials::{ServiceAccountKey, ServiceAccountKeyView};
use crate::encoding::{
    base64url,
    decimal,
    json_string,
    push_base64url,
    push_decimal,
    push_json_string,
};
use crate::scope::texts;
use vstd::prelude::*;
use vstd::string::*;
use vstd::utf8::encode_utf8;

verus! {

/// Seconds for which an assertion is valid from the instant it is issued.
pub const ASSERTION_LIFETIME: u64 = 3600;

/// The texts `parts` in their order, with `separator` between neighbours.
pub open spec fn joined(parts: Seq<Seq<char>>, separator: Seq<char>) -> Seq<char>
    decreases parts.len(),
{
    if parts.len() == 0 {
        Seq::empty()
    } else if parts.len() == 1 {
        parts[0]
    } else {
        joined(parts.drop_last(), separator) + separator + parts.last()
    }
}

/// Joins `parts` in their order, with `separator` between neighbours.
pub fn join(parts: &[&str], separator: &str) -> (text: String)
    ensures
        text@ == joined(texts(parts@), separator@),
{
    let mut text = String::new();
    let ghost all = texts(parts@);
    let mut i: usize = 0;
    while i < parts.len()
        invariant
            i <= parts.len(),
            all == texts(parts@),
            text@ == joined(all.take(i as int), separator@),
        decreases parts.len() - i,
    {
        if i > 0 {
            text.append(separator);
        }
        text.append(parts[i]);
        proof {
            let next = all.take(i + 1);
            assert(next.drop_last() =~= all.take(i as int));
            assert(next.last() == parts@[i as int]@);
            if i == 0 {
                assert(text@ =~= next[0]);
            }
        }
        i += 1;
    }
    assert(all.take(i as int) =~= all);
    text
}

/// What a [`Claims`] value holds, as mathematical values.
pub struct ClaimsView {
    pub iss: Seq<char>,
    pub scope: Seq<char>,
    pub aud: Seq<char>,
    pub iat: u64,
    pub exp: u64,
}

/// The claim set a service account signs to obtain a token.
#[derive(Debug)]
pub struct Claims {
    pub iss: String,
    pub scope: String,
    pub aud: String,
    pub iat: u64,
    pub exp: u64,
}

impl View for Claims {
    type V = ClaimsView;

    open spec fn view(&self) -> ClaimsView {
        ClaimsView {
            iss: self.iss@,
            scope: self.scope@,
            aud: self.aud@,
            iat: self.iat,
            exp: self.exp,
        }
    }
}

/// The claim set of the account `key` for `scopes` at `now`: issued by the
/// account, for its token endpoint, naming the scopes in the order given
/// with one space between them, valid from `now` for the assertion
/// lifetime.
pub open spec fn claims_for(key: ServiceAccountKeyView, scopes: Seq<Seq<char>>, now: u64) -> ClaimsView
    recommends
        now + ASSERTION_LIFETIME <= u64::MAX,
{
    ClaimsView {
        iss: key.client_email,
        scope: joined(scopes, seq![' ']),
        aud: key.token_uri,
        iat: now,
        exp: (now + ASSERTION_LIFETIME) as u64,
    }
}

impl Claims {
    /// Builds the claim set of the account `key` for `scopes` at `now`.
    pub fn new(key: &ServiceAccountKey, scopes: &[&str], now: u64) -> (claims: Claims)
        requires
            now + ASSERTION_LIFETIME <= u64::MAX,
        ensures
            claims@ == claims_for(key@, texts(scopes@), now),
    {
        proof {
            reveal_strlit(" ");
            assert(" "@ =~= seq![' ']);
        }
        Claims {
            iss: key.client_email().to_owned(),
            scope: join(scopes, " "),
            aud: key.token_uri().to_owned(),
            iat: now,
            exp: now + ASSERTION_LIFETIME,
        }
    }
}

/// The header of an assertion: it names the signature scheme and the kind
/// of token.
pub const ASSERTION_HEADER: &'static str = "{\"alg\":\"RS256\",\"typ\":\"JWT\"}";

/// The JSON text of a claim set: one object with the issuer, the scopes,
/// the audience, and the instants of issue and expiry as numbers, in this
/// order and without white space.
pub open spec fn claims_json(claims: ClaimsView) -> Seq<char> {
    "{\"iss\":"@ + json_string(claims.iss) + ",\"scope\":"@ + json_string(claims.scope)
        + ",\"aud\":"@ + json_string(claims.aud) + ",\"iat\":"@ + decimal(claims.iat as nat)
        + ",\"exp\":"@ + decimal(claims.exp as nat) + "}"@
}

/// What is signed for a claim set: the base64 text of the header and that
/// of the claim set's JSON text, with a full stop between them.
pub open spec fn signing_input(claims: ClaimsView) -> Seq<char> {
    base64url(encode_utf8(ASSERTION_HEADER@)) + seq!['.'] + base64url(
        encode_utf8(claims_json(claims)),
    )
}

/// The assertion in its compact form: what was signed and the base64 text
/// of the signature, with a full stop between them.
pub open spec fn compact(input: Seq<char>, signature: Seq<u8>) -> Seq<char> {
    input + seq!['.'] + base64url(signature)
}

impl Claims {
    /// The JSON text of the claim set.
    pub fn to_json(&self) -> (text: String)
        ensures
            text@ == claims_json(self@),
    {
        let mut text = String::new();
        text.append("{\"iss\":");
        push_json_string(&mut text, self.iss.as_str());
        text.append(",\"scope\":");
        push_json_string(&mut text, self.scope.as_str());
        text.append(",\"aud\":");
        push_json_string(&mut text, self.aud.as_str());
        text.append(",\"iat\":");
        push_decimal(&mut text, self.iat);
        text.append(",\"exp\":");
        push_decimal(&mut text, self.exp);
        text.append("}");
        assert(text@ =~= claims_json(self@));
        text
    }

    /// What is to be signed for the claim set.
    pub fn signing_input(&self) -> (input: String)
        ensures
            input@ == signing_input(self@),
    {
        proof {
            reveal_strlit(".");
            assert("."@ =~= seq!['.']);
        }
        let mut input = String::new();
        push_base64url(&mut input, ASSERTION_HEADER.as_bytes());
        input.append(".");
        let json = self.to_json();
        push_base64url(&mut input, json.as_str().as_bytes());
        assert(input@ =~= signing_input(self@));
        input
    }
}

/// Puts what was signed and its signature together into the compact form
/// of the assertion.
pub fn compact_assertion(input: &str, signature: &[u8]) -> (assertion: String)
    ensures
        assertion@ == compact(input@, signature@),
{
    proof {
        reveal_strlit(".");
        assert("."@ =~= seq!['.']);
    }
    let mut assertion = input.to_owned();
    assertion.append(".");
    push_base64url(&mut assertion, signature);
    assert(assertion@ =~= compact(input@, signature@));
    assertion
}

/// The claim set depends on nothing but the key, the scopes and the instant:
/// it names the account as issuer and its token endpoint as audience, and
/// expires one assertion lifetime after it was issued.
pub proof fn lemma_claims_reproducible(
    key: ServiceAccountKeyView,
    scopes: Seq<Seq<char>>,
    now: u64,
    first: ClaimsView,
    second: ClaimsView,
)
    requires
        now + ASSERTION_LIFETIME <= u64::MAX,
        first == claims_for(key, scopes, now),
        second == claims_for(key, scopes, now),
    ensures
        first == second,
        first.iss == key.client_email,
        first.aud == key.token_uri,
        first.iat == now,
        first.exp == first.iat + 3600,
{
}

} // verus!
