//! The three credential strategies and what each sends to obtain a token.
//!
//! A keyed service account signs an assertion of its own and exchanges it at
//! its token endpoint; the metadata service is asked for the token of the
//! environment's account; an authorized user exchanges a refresh token. The
//! reply to the request is read by
//! [`token_from_reply`](crate::wire::token_from_reply).

use crate::credentials::{
    AuthorizedUserRecord,
    AuthorizedUserView,
    ServiceAccountKey,
    ServiceAccountKeyView,
};
use crate::error::{Error, ErrorView};
use crate::jwt::{
    claims_for,
    compact,
    compact_assertion,
    join,
    joined,
    signing_input,
    Claims,
    ASSERTION_LIFETIME,
};
use crate::scope::texts;
use crate::signer::{rs256_signature, sign_rs256};
use crate::wire::{field_pairs, form_text, push_form, Field, HttpRequest, Method, RequestView};
use vstd::prelude::*;
use vstd::string::*;
use vstd::utf8::encode_utf8;

verus! {

/// Where the metadata service hands out the default account's tokens.
pub const METADATA_TOKEN_URI: &'static str =
    "http://metadata.google.internal/computeMetadata/v1/instance/service-accounts/default/token";

/// Where the metadata service is probed for its presence.
pub const METADATA_PROBE_URI: &'static str =
    "http://metadata.google.internal/computeMetadata/v1/project/project-id";

/// The header that marks a request as coming from inside the environment.
pub const METADATA_HEADER: &'static str = "Metadata-Flavor";

/// The value of the metadata header.
pub const METADATA_HEADER_VALUE: &'static str = "Google";

/// The header that names the kind of a request's body.
pub const CONTENT_TYPE: &'static str = "Content-Type";

/// The kind of a body that is a form.
pub const FORM_CONTENT_TYPE: &'static str = "application/x-www-form-urlencoded";

/// The endpoint at which refresh tokens are exchanged.
pub const REFRESH_TOKEN_URI: &'static str = "https://accounts.google.com/o/oauth2/token";

/// The grant type of a signed-assertion exchange.
pub const JWT_BEARER_GRANT: &'static str = "urn:ietf:params:oauth:grant-type:jwt-bearer";

/// The grant type of a refresh-token exchange.
pub const REFRESH_TOKEN_GRANT: &'static str = "refresh_token";

/// Detail of the failure reported for a key that cannot sign.
pub const SIGNING_FAILED: &'static str = "the private key cannot be used to sign";

/// The request that probes the metadata service: a read of the project
/// identifier, marked as an internal metadata request.
pub open spec fn metadata_probe() -> RequestView {
    RequestView {
        method: Method::Get,
        uri: METADATA_PROBE_URI@,
        headers: seq![(METADATA_HEADER@, METADATA_HEADER_VALUE@)],
        body: Seq::empty(),
    }
}

/// The metadata service's token request for `scopes`: a read of the default
/// account's token, marked as an internal metadata request, with the scopes
/// in one query parameter, separated by commas.
pub open spec fn metadata_request(scopes: Seq<Seq<char>>) -> RequestView {
    RequestView {
        method: Method::Get,
        uri: METADATA_TOKEN_URI@ + seq!['?'] + form_text(
            seq![("scopes"@, joined(scopes, seq![',']))],
        ),
        headers: seq![(METADATA_HEADER@, METADATA_HEADER_VALUE@)],
        body: Seq::empty(),
    }
}

/// The exchange of a signed assertion at the account's token endpoint: a
/// form with the assertion grant type and the assertion.
pub open spec fn assertion_request(key: ServiceAccountKeyView, assertion: Seq<char>) -> RequestView {
    RequestView {
        method: Method::Post,
        uri: key.token_uri,
        headers: seq![(CONTENT_TYPE@, FORM_CONTENT_TYPE@)],
        body: form_text(seq![("grant_type"@, JWT_BEARER_GRANT@), ("assertion"@, assertion)]),
    }
}

/// The exchange of a user's refresh token: a form with the refresh grant
/// type, the client, its secret and the refresh token.
pub open spec fn refresh_request(user: AuthorizedUserView) -> RequestView {
    RequestView {
        method: Method::Post,
        uri: REFRESH_TOKEN_URI@,
        headers: seq![(CONTENT_TYPE@, FORM_CONTENT_TYPE@)],
        body: form_text(
            seq![
                ("grant_type"@, REFRESH_TOKEN_GRANT@),
                ("client_id"@, user.client_id),
                ("client_secret"@, user.client_secret),
                ("refresh_token"@, user.refresh_token),
            ],
        ),
    }
}

fn metadata_headers() -> (headers: Vec<Field>)
    ensures
        field_pairs(headers@) == seq![(METADATA_HEADER@, METADATA_HEADER_VALUE@)],
{
    let mut headers: Vec<Field> = Vec::new();
    headers.push(Field::new(METADATA_HEADER, METADATA_HEADER_VALUE));
    assert(field_pairs(headers@) =~= seq![(METADATA_HEADER@, METADATA_HEADER_VALUE@)]);
    headers
}

fn form_headers() -> (headers: Vec<Field>)
    ensures
        field_pairs(headers@) == seq![(CONTENT_TYPE@, FORM_CONTENT_TYPE@)],
{
    let mut headers: Vec<Field> = Vec::new();
    headers.push(Field::new(CONTENT_TYPE, FORM_CONTENT_TYPE));
    assert(field_pairs(headers@) =~= seq![(CONTENT_TYPE@, FORM_CONTENT_TYPE@)]);
    headers
}

/// Builds the request that probes the metadata service.
pub fn build_metadata_probe() -> (request: HttpRequest)
    ensures
        request@ == metadata_probe(),
{
    HttpRequest {
        method: Method::Get,
        uri: METADATA_PROBE_URI.to_owned(),
        headers: metadata_headers(),
        body: String::new(),
    }
}

/// Builds the metadata service's token request for `scopes`.
pub fn build_metadata_request(scopes: &[&str]) -> (request: HttpRequest)
    ensures
        request@ == metadata_request(texts(scopes@)),
{
    proof {
        reveal_strlit(",");
        reveal_strlit("?");
        assert(","@ =~= seq![',']);
        assert("?"@ =~= seq!['?']);
    }
    let list = join(scopes, ",");
    let mut query: Vec<Field> = Vec::new();
    query.push(Field::new("scopes", list.as_str()));
    assert(field_pairs(query@) =~= seq![("scopes"@, joined(texts(scopes@), seq![',']))]);
    let mut uri = METADATA_TOKEN_URI.to_owned();
    uri.append("?");
    push_form(&mut uri, query.as_slice());
    HttpRequest { method: Method::Get, uri, headers: metadata_headers(), body: String::new() }
}

/// Builds the exchange of the signed `assertion` at the token endpoint of
/// the account `key`.
pub fn build_assertion_request(key: &ServiceAccountKey, assertion: &str) -> (request: HttpRequest)
    ensures
        request@ == assertion_request(key@, assertion@),
{
    let mut form: Vec<Field> = Vec::new();
    form.push(Field::new("grant_type", JWT_BEARER_GRANT));
    form.push(Field::new("assertion", assertion));
    assert(field_pairs(form@) =~= seq![
        ("grant_type"@, JWT_BEARER_GRANT@),
        ("assertion"@, assertion@),
    ]);
    let mut body = String::new();
    push_form(&mut body, form.as_slice());
    assert(body@ =~= assertion_request(key@, assertion@).body);
    HttpRequest {
        method: Method::Post,
        uri: key.token_uri().to_owned(),
        headers: form_headers(),
        body,
    }
}

/// Builds the exchange of the refresh token of `user`.
pub fn build_refresh_request(user: &AuthorizedUserRecord) -> (request: HttpRequest)
    ensures
        request@ == refresh_request(user@),
{
    let mut form: Vec<Field> = Vec::new();
    form.push(Field::new("grant_type", REFRESH_TOKEN_GRANT));
    form.push(Field::new("client_id", user.client_id()));
    form.push(Field::new("client_secret", user.client_secret()));
    form.push(Field::new("refresh_token", user.refresh_token()));
    assert(field_pairs(form@) =~= seq![
        ("grant_type"@, REFRESH_TOKEN_GRANT@),
        ("client_id"@, user@.client_id),
        ("client_secret"@, user@.client_secret),
        ("refresh_token"@, user@.refresh_token),
    ]);
    let mut body = String::new();
    push_form(&mut body, form.as_slice());
    assert(body@ =~= refresh_request(user@).body);
    HttpRequest {
        method: Method::Post,
        uri: REFRESH_TOKEN_URI.to_owned(),
        headers: form_headers(),
        body,
    }
}

/// A request or a failure, as mathematical values.
pub open spec fn request_view(step: Result<HttpRequest, Error>) -> Result<RequestView, ErrorView> {
    match step {
        Ok(request) => Ok(request@),
        Err(error) => Err(error@),
    }
}

/// What follows the signing of `input` for the account `key`: the exchange
/// of the assertion made of the input and its signature, or a signing
/// failure where the key gave no signature.
pub open spec fn request_after_signing(
    key: ServiceAccountKeyView,
    input: Seq<char>,
    signature: Option<Seq<u8>>,
) -> Result<RequestView, ErrorView> {
    match signature {
        Some(bytes) => Ok(assertion_request(key, compact(input, bytes))),
        None => Err(ErrorView::SigningError(SIGNING_FAILED@)),
    }
}

/// The bytes of an optional signature.
pub open spec fn signature_bytes(signature: Option<Vec<u8>>) -> Option<Seq<u8>> {
    match signature {
        Some(bytes) => Some(bytes@),
        None => None,
    }
}

/// Builds what follows the signing of `input` for the account `key`, given
/// the signature or its absence.
pub fn exchange_after_signing(
    key: &ServiceAccountKey,
    input: &str,
    signature: Option<Vec<u8>>,
) -> (step: Result<HttpRequest, Error>)
    ensures
        request_view(step) == request_after_signing(key@, input@, signature_bytes(signature)),
{
    match signature {
        Some(bytes) => {
            let assertion = compact_assertion(input, bytes.as_slice());
            Ok(build_assertion_request(key, assertion.as_str()))
        },
        None => Err(Error::SigningError(SIGNING_FAILED.to_owned())),
    }
}

/// What a [`CredentialStrategy`] holds, as mathematical values.
pub enum StrategyView {
    KeyedServiceAccount(ServiceAccountKeyView),
    MetadataService,
    AuthorizedUser(AuthorizedUserView),
}

/// A way of obtaining tokens, with the credential material it owns.
#[derive(Debug)]
pub enum CredentialStrategy {
    /// A service account that signs its own assertions.
    KeyedServiceAccount(ServiceAccountKey),
    /// The metadata service of the surrounding environment, which issues
    /// the tokens it hands out.
    MetadataService,
    /// A developer's refresh token.
    AuthorizedUser(AuthorizedUserRecord),
}

impl View for CredentialStrategy {
    type V = StrategyView;

    open spec fn view(&self) -> StrategyView {
        match self {
            CredentialStrategy::KeyedServiceAccount(key) => StrategyView::KeyedServiceAccount(key@),
            CredentialStrategy::MetadataService => StrategyView::MetadataService,
            CredentialStrategy::AuthorizedUser(user) => StrategyView::AuthorizedUser(user@),
        }
    }
}

/// The request by which the account `key` obtains a token for `scopes` at
/// `now`: its claim set is put into its text form and signed with its key,
/// and the signed assertion is exchanged at its token endpoint. A key that
/// cannot sign makes it a signing failure.
pub open spec fn keyed_request(key: ServiceAccountKeyView, scopes: Seq<Seq<char>>, now: u64) -> Result<
    RequestView,
    ErrorView,
> {
    request_after_signing(
        key,
        signing_input(claims_for(key, scopes, now)),
        rs256_signature(key.private_key, encode_utf8(signing_input(claims_for(key, scopes, now)))),
    )
}

/// The request by which a strategy obtains a token for `scopes` at `now`.
pub open spec fn issue_request(strategy: StrategyView, scopes: Seq<Seq<char>>, now: u64) -> Result<
    RequestView,
    ErrorView,
> {
    match strategy {
        StrategyView::KeyedServiceAccount(key) => keyed_request(key, scopes, now),
        StrategyView::MetadataService => Ok(metadata_request(scopes)),
        StrategyView::AuthorizedUser(user) => Ok(refresh_request(user)),
    }
}

/// Whether issuing at `now` can be begun: a keyed service account needs
/// the expiry of its assertion to be a representable instant.
pub open spec fn can_issue_at(strategy: StrategyView, now: u64) -> bool {
    strategy is KeyedServiceAccount ==> now + ASSERTION_LIFETIME <= u64::MAX
}

impl CredentialStrategy {
    /// Begins the issue of a token for `scopes` at `now`: builds the
    /// request whose reply carries the token.
    pub fn begin_issue(&self, scopes: &[&str], now: u64) -> (step: Result<HttpRequest, Error>)
        requires
            can_issue_at(self@, now),
        ensures
            request_view(step) == issue_request(self@, texts(scopes@), now),
    {
        match self {
            CredentialStrategy::KeyedServiceAccount(key) => {
                let claims = Claims::new(key, scopes, now);
                let input = claims.signing_input();
                let signature = sign_rs256(key.private_key(), input.as_str().as_bytes());
                exchange_after_signing(key, input.as_str(), signature)
            },
            CredentialStrategy::MetadataService => Ok(build_metadata_request(scopes)),
            CredentialStrategy::AuthorizedUser(user) => Ok(build_refresh_request(user)),
        }
    }
}

/// Only a keyed service account can fail to begin an issue: the metadata
/// service and an authorized user sign nothing and always have a request
/// to send.
pub proof fn lemma_only_keyed_accounts_sign(strategy: StrategyView, scopes: Seq<Seq<char>>, now: u64)
    requires
        !(strategy is KeyedServiceAccount),
    ensures
        issue_request(strategy, scopes, now) is Ok,
{
}

} // verus!
