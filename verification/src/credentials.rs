//! Credential material: the records read from the two credential files.
//!
//! A file's fields arrive as optional values, each present where the file
//! held it. A record is built only from a file that holds every required
//! field, and never changes afterwards.

use crate::error::{Error, ErrorView};
use crate::signer::{rs256_signature, sign_rs256};
use vstd::prelude::*;

verus! {

/// Detail of the failure reported for a key file without all its fields.
pub const INCOMPLETE_KEY_FILE: &'static str = "service account key file lacks a required field";

/// Detail of the failure reported for a user file without all its fields.
pub const INCOMPLETE_USER_FILE: &'static str = "authorized user file lacks a required field";

/// The fields found in a service-account key file.
#[derive(Debug)]
pub struct ServiceAccountFile {
    pub client_email: Option<String>,
    pub private_key: Option<String>,
    pub token_uri: Option<String>,
    pub project_id: Option<String>,
}

/// What a [`ServiceAccountKey`] holds, as mathematical values.
pub struct ServiceAccountKeyView {
    pub client_email: Seq<char>,
    pub private_key: Seq<char>,
    pub token_uri: Seq<char>,
    pub project_id: Seq<char>,
}

/// A service account's key: who it is, the PEM text of its signing key, and
/// where its assertions are exchanged for tokens.
#[derive(Debug)]
pub struct ServiceAccountKey {
    client_email: String,
    private_key: String,
    token_uri: String,
    project_id: String,
}

impl View for ServiceAccountKey {
    type V = ServiceAccountKeyView;

    closed spec fn view(&self) -> ServiceAccountKeyView {
        ServiceAccountKeyView {
            client_email: self.client_email@,
            private_key: self.private_key@,
            token_uri: self.token_uri@,
            project_id: self.project_id@,
        }
    }
}

/// The key that a file's fields make up: one exists exactly where all four
/// fields are present.
pub open spec fn service_account_of(file: ServiceAccountFile) -> Option<ServiceAccountKeyView> {
    match (file.client_email, file.private_key, file.token_uri, file.project_id) {
        (Some(client_email), Some(private_key), Some(token_uri), Some(project_id)) => Some(
            ServiceAccountKeyView {
                client_email: client_email@,
                private_key: private_key@,
                token_uri: token_uri@,
                project_id: project_id@,
            },
        ),
        _ => None,
    }
}

/// Whether the key of an account can be used to sign: it yields a signature
/// of the empty message.
pub open spec fn key_can_sign(key: ServiceAccountKeyView) -> bool {
    rs256_signature(key.private_key, Seq::empty()) is Some
}

impl ServiceAccountKey {
    /// Whether the account's key can be used to sign.
    pub fn can_sign(&self) -> (usable: bool)
        ensures
            usable == key_can_sign(self@),
    {
        let nothing: Vec<u8> = Vec::new();
        sign_rs256(self.private_key.as_str(), nothing.as_slice()).is_some()
    }

    /// Builds the key from a file's fields. A file that lacks any of them is
    /// refused with a configuration error.
    pub fn from_file(file: ServiceAccountFile) -> (loaded: Result<ServiceAccountKey, Error>)
        ensures
            match loaded {
                Ok(key) => service_account_of(file) == Some(key@),
                Err(error) => service_account_of(file) is None && error@
                    == ErrorView::ConfigError(INCOMPLETE_KEY_FILE@),
            },
    {
        let ServiceAccountFile { client_email, private_key, token_uri, project_id } = file;
        match (client_email, private_key, token_uri, project_id) {
            (Some(client_email), Some(private_key), Some(token_uri), Some(project_id)) => Ok(
                ServiceAccountKey { client_email, private_key, token_uri, project_id },
            ),
            _ => Err(Error::ConfigError(INCOMPLETE_KEY_FILE.to_owned())),
        }
    }

    /// The account's identity, which issues its assertions.
    pub fn client_email(&self) -> (text: &str)
        ensures
            text@ == self@.client_email,
    {
        self.client_email.as_str()
    }

    /// The PEM text of the account's signing key.
    pub fn private_key(&self) -> (text: &str)
        ensures
            text@ == self@.private_key,
    {
        self.private_key.as_str()
    }

    /// The endpoint at which assertions are exchanged for tokens.
    pub fn token_uri(&self) -> (text: &str)
        ensures
            text@ == self@.token_uri,
    {
        self.token_uri.as_str()
    }

    /// The project the account belongs to.
    pub fn project_id(&self) -> (text: &str)
        ensures
            text@ == self@.project_id,
    {
        self.project_id.as_str()
    }
}

/// The fields found in a local authorized-user file.
#[derive(Debug)]
pub struct AuthorizedUserFile {
    pub client_id: Option<String>,
    pub client_secret: Option<String>,
    pub refresh_token: Option<String>,
}

/// What an [`AuthorizedUserRecord`] holds, as mathematical values.
pub struct AuthorizedUserView {
    pub client_id: Seq<char>,
    pub client_secret: Seq<char>,
    pub refresh_token: Seq<char>,
}

/// A developer's standing credential: a client and its long-lived refresh
/// token.
#[derive(Debug)]
pub struct AuthorizedUserRecord {
    client_id: String,
    client_secret: String,
    refresh_token: String,
}

impl View for AuthorizedUserRecord {
    type V = AuthorizedUserView;

    closed spec fn view(&self) -> AuthorizedUserView {
        AuthorizedUserView {
            client_id: self.client_id@,
            client_secret: self.client_secret@,
            refresh_token: self.refresh_token@,
        }
    }
}

/// The record that a file's fields make up: one exists exactly where all
/// three fields are present.
pub open spec fn authorized_user_of(file: AuthorizedUserFile) -> Option<AuthorizedUserView> {
    match (file.client_id, file.client_secret, file.refresh_token) {
        (Some(client_id), Some(client_secret), Some(refresh_token)) => Some(
            AuthorizedUserView {
                client_id: client_id@,
                client_secret: client_secret@,
                refresh_token: refresh_token@,
            },
        ),
        _ => None,
    }
}

impl AuthorizedUserRecord {
    /// Builds the record from a file's fields. A file that lacks any of them
    /// is refused with a configuration error.
    pub fn from_file(file: AuthorizedUserFile) -> (loaded: Result<AuthorizedUserRecord, Error>)
        ensures
            match loaded {
                Ok(user) => authorized_user_of(file) == Some(user@),
                Err(error) => authorized_user_of(file) is None && error@
                    == ErrorView::ConfigError(INCOMPLETE_USER_FILE@),
            },
    {
        let AuthorizedUserFile { client_id, client_secret, refresh_token } = file;
        match (client_id, client_secret, refresh_token) {
            (Some(client_id), Some(client_secret), Some(refresh_token)) => Ok(
                AuthorizedUserRecord { client_id, client_secret, refresh_token },
            ),
            _ => Err(Error::ConfigError(INCOMPLETE_USER_FILE.to_owned())),
        }
    }

    /// The client the refresh token was granted to.
    pub fn client_id(&self) -> (text: &str)
        ensures
            text@ == self@.client_id,
    {
        self.client_id.as_str()
    }

    /// The client's secret.
    pub fn client_secret(&self) -> (text: &str)
        ensures
            text@ == self@.client_secret,
    {
        self.client_secret.as_str()
    }

    /// The long-lived token that is exchanged for access tokens.
    pub fn refresh_token(&self) -> (text: &str)
        ensures
            text@ == self@.refresh_token,
    {
        self.refresh_token.as_str()
    }
}

} // verus!
