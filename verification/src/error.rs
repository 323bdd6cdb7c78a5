//! Failure kinds surfaced by credential resolution and token retrieval.

use vstd::prelude::*;

verus! {

/// Why a credential could not be loaded or a token could not be obtained.
#[derive(Debug, PartialEq, Eq)]
pub enum Error {
    /// A credential file is missing, unreadable or lacks a required field.
    ConfigError(String),
    /// The signing key cannot be used to sign an assertion.
    SigningError(String),
    /// An outbound call failed to connect, timed out or was answered with a
    /// non-success status.
    TransportError(String),
    /// A response arrived but does not carry the expected fields.
    ExchangeError(String),
    /// Neither the metadata service nor the local user credentials are
    /// usable; the first cause is the metadata probe's failure, the second
    /// the local user probe's.
    NoAuthMethod(Box<Error>, Box<Error>),
}

/// What an [`Error`] holds, as mathematical values.
pub enum ErrorView {
    ConfigError(Seq<char>),
    SigningError(Seq<char>),
    TransportError(Seq<char>),
    ExchangeError(Seq<char>),
    NoAuthMethod(Box<ErrorView>, Box<ErrorView>),
}

impl View for Error {
    type V = ErrorView;

    open spec fn view(&self) -> ErrorView
        decreases self,
    {
        match self {
            Error::ConfigError(detail) => ErrorView::ConfigError(detail@),
            Error::SigningError(detail) => ErrorView::SigningError(detail@),
            Error::TransportError(detail) => ErrorView::TransportError(detail@),
            Error::ExchangeError(detail) => ErrorView::ExchangeError(detail@),
            Error::NoAuthMethod(metadata, user) => ErrorView::NoAuthMethod(
                Box::new((**metadata).view()),
                Box::new((**user).view()),
            ),
        }
    }
}

impl ErrorView {
    /// The kind of the error viewed.
    pub open spec fn kind(self) -> ErrorKind {
        match self {
            ErrorView::ConfigError(_) => ErrorKind::Config,
            ErrorView::SigningError(_) => ErrorKind::Signing,
            ErrorView::TransportError(_) => ErrorKind::Transport,
            ErrorView::ExchangeError(_) => ErrorKind::Exchange,
            ErrorView::NoAuthMethod(_, _) => ErrorKind::NoAuthMethod,
        }
    }
}

/// The kind of an [`Error`], without its detail.
#[derive(Debug, Clone, Copy, PartialEq, Eq, Structural)]
pub enum ErrorKind {
    Config,
    Signing,
    Transport,
    Exchange,
    NoAuthMethod,
}

impl Error {
    /// The kind of this error as a specification value.
    pub open spec fn spec_kind(&self) -> ErrorKind {
        self@.kind()
    }

    /// The kind of this error.
    pub fn kind(&self) -> (k: ErrorKind)
        ensures
            k == self.spec_kind(),
    {
        match self {
            Error::ConfigError(_) => ErrorKind::Config,
            Error::SigningError(_) => ErrorKind::Signing,
            Error::TransportError(_) => ErrorKind::Transport,
            Error::ExchangeError(_) => ErrorKind::Exchange,
            Error::NoAuthMethod(_, _) => ErrorKind::NoAuthMethod,
        }
    }

    /// An independent copy of the error.
    pub fn duplicate(&self) -> (copy: Error)
        ensures
            copy@ == self@,
        decreases self,
    {
        match self {
            Error::ConfigError(detail) => Error::ConfigError(detail.clone()),
            Error::SigningError(detail) => Error::SigningError(detail.clone()),
            Error::TransportError(detail) => Error::TransportError(detail.clone()),
            Error::ExchangeError(detail) => Error::ExchangeError(detail.clone()),
            Error::NoAuthMethod(metadata, user) => Error::NoAuthMethod(
                Box::new(metadata.duplicate()),
                Box::new(user.duplicate()),
            ),
        }
    }

    /// Whether the caller may usefully call again later: transport and
    /// exchange failures are transient, everything else is not.
    pub open spec fn spec_is_recoverable(&self) -> bool {
        self.spec_kind() == ErrorKind::Transport || self.spec_kind() == ErrorKind::Exchange
    }

    /// Whether the caller may usefully call again later.
    pub fn is_recoverable(&self) -> (r: bool)
        ensures
            r == self.spec_is_recoverable(),
    {
        match self {
            Error::TransportError(_) => true,
            Error::ExchangeError(_) => true,
            _ => false,
        }
    }
}

} // verus!
