use gcp_auth::error::{Error, ErrorKind};
use gcp_auth::scope::ScopeSet;
use gcp_auth::token::{Token, SAFETY_MARGIN};
use gcp_auth::wire::{
    reply_failure, token_from_reply, HttpReply, TokenBody, FAILURE_STATUS, INCOMPLETE_ANSWER,
    LIFETIME_OUT_OF_RANGE,
};

fn answer(status: u16, access_token: Option<&str>, expires_in: Option<u64>) -> HttpReply {
    HttpReply::Answered {
        status,
        body: Some(TokenBody { access_token: access_token.map(|t| t.to_string()), expires_in }),
    }
}

#[test]
fn safety_margin_is_twenty_seconds() {
    assert_eq!(SAFETY_MARGIN, 20);
}

#[test]
fn token_keeps_what_it_was_built_from() {
    let token = Token::new("secret".to_string(), ScopeSet::new(&["b", "a"]), 5000);
    assert_eq!(token.as_str(), "secret");
    assert_eq!(token.expires_at(), 5000);
    assert!(token.scopes().same(&ScopeSet::new(&["a", "b"])));
}

#[test]
fn token_is_usable_until_the_margin_before_expiry() {
    let token = Token::new("t".to_string(), ScopeSet::new(&["a"]), 1000);
    assert!(!token.has_expired(0));
    assert!(!token.has_expired(979));
    assert!(token.has_expired(980));
    assert!(token.has_expired(999));
    assert!(token.has_expired(1000));
    assert!(token.has_expired(u64::MAX));
}

#[test]
fn token_expiring_within_the_margin_of_the_epoch_is_never_usable() {
    let at_margin = Token::new("t".to_string(), ScopeSet::new(&["a"]), 20);
    assert!(at_margin.has_expired(0));
    let past_margin = Token::new("t".to_string(), ScopeSet::new(&["a"]), 21);
    assert!(!past_margin.has_expired(0));
    assert!(past_margin.has_expired(1));
    let at_epoch = Token::new("t".to_string(), ScopeSet::new(&["a"]), 0);
    assert!(at_epoch.has_expired(0));
}

#[test]
fn token_copy_holds_the_same() {
    let token = Token::new("secret".to_string(), ScopeSet::new(&["a"]), 77);
    let copy = token.duplicate();
    assert_eq!(copy.as_str(), "secret");
    assert_eq!(copy.expires_at(), 77);
    assert!(copy.scopes().same(token.scopes()));
}

#[test]
fn reply_with_token_and_lifetime_yields_the_token() {
    let outcome = token_from_reply(answer(200, Some("abc"), Some(3600)), ScopeSet::new(&["s"]), 1000);
    let token = outcome.unwrap();
    assert_eq!(token.as_str(), "abc");
    assert_eq!(token.expires_at(), 4600);
    assert!(token.scopes().same(&ScopeSet::new(&["s"])));
}

#[test]
fn reply_status_decides_success() {
    for status in [200u16, 201, 204, 299] {
        assert!(token_from_reply(answer(status, Some("t"), Some(1)), ScopeSet::new(&[]), 0).is_ok());
    }
    for status in [0u16, 100, 199, 300, 301, 400, 401, 404, 500, 503, u16::MAX] {
        let outcome = token_from_reply(answer(status, Some("t"), Some(1)), ScopeSet::new(&[]), 0);
        assert_eq!(outcome.unwrap_err(), Error::TransportError(FAILURE_STATUS.to_string()));
    }
}

#[test]
fn reply_without_answer_is_a_transport_failure_with_its_detail() {
    let outcome = token_from_reply(
        HttpReply::Unreachable("connection refused".to_string()),
        ScopeSet::new(&["s"]),
        5,
    );
    assert_eq!(outcome.unwrap_err(), Error::TransportError("connection refused".to_string()));
}

#[test]
fn reply_without_readable_body_is_an_exchange_failure() {
    let outcome =
        token_from_reply(HttpReply::Answered { status: 200, body: None }, ScopeSet::new(&["s"]), 5);
    assert_eq!(outcome.unwrap_err(), Error::ExchangeError(INCOMPLETE_ANSWER.to_string()));
}

#[test]
fn reply_without_token_or_lifetime_is_an_exchange_failure() {
    let missing_token = token_from_reply(answer(200, None, Some(10)), ScopeSet::new(&["s"]), 5);
    assert_eq!(missing_token.unwrap_err(), Error::ExchangeError(INCOMPLETE_ANSWER.to_string()));
    let missing_lifetime = token_from_reply(answer(200, Some("t"), None), ScopeSet::new(&["s"]), 5);
    assert_eq!(missing_lifetime.unwrap_err(), Error::ExchangeError(INCOMPLETE_ANSWER.to_string()));
    let missing_both = token_from_reply(answer(200, None, None), ScopeSet::new(&["s"]), 5);
    assert_eq!(missing_both.unwrap_err().kind(), ErrorKind::Exchange);
}

#[test]
fn reply_with_failure_status_is_a_transport_failure_whatever_the_body() {
    let outcome = token_from_reply(HttpReply::Answered { status: 503, body: None }, ScopeSet::new(&[]), 5);
    assert_eq!(outcome.unwrap_err().kind(), ErrorKind::Transport);
}

#[test]
fn reply_lifetime_beyond_the_last_instant_is_an_exchange_failure() {
    let fits = token_from_reply(answer(200, Some("t"), Some(5)), ScopeSet::new(&[]), u64::MAX - 5);
    assert_eq!(fits.unwrap().expires_at(), u64::MAX);
    let overflows = token_from_reply(answer(200, Some("t"), Some(6)), ScopeSet::new(&[]), u64::MAX - 5);
    assert_eq!(overflows.unwrap_err(), Error::ExchangeError(LIFETIME_OUT_OF_RANGE.to_string()));
}

#[test]
fn reply_with_zero_lifetime_expires_at_once() {
    let token = token_from_reply(answer(200, Some("t"), Some(0)), ScopeSet::new(&[]), 400).unwrap();
    assert_eq!(token.expires_at(), 400);
    assert!(token.has_expired(400));
}

#[test]
fn reply_failure_tells_transport_failures_apart() {
    assert_eq!(reply_failure(&answer(200, None, None)), None);
    assert_eq!(
        reply_failure(&answer(404, Some("t"), Some(1))),
        Some(Error::TransportError(FAILURE_STATUS.to_string()))
    );
    assert_eq!(
        reply_failure(&HttpReply::Unreachable("timed out".to_string())),
        Some(Error::TransportError("timed out".to_string()))
    );
}

#[test]
fn error_kinds_and_recoverability() {
    let config = Error::ConfigError("c".to_string());
    let signing = Error::SigningError("s".to_string());
    let transport = Error::TransportError("t".to_string());
    let exchange = Error::ExchangeError("e".to_string());
    let none = Error::NoAuthMethod(
        Box::new(Error::TransportError("t".to_string())),
        Box::new(Error::ConfigError("c".to_string())),
    );
    assert_eq!(config.kind(), ErrorKind::Config);
    assert_eq!(signing.kind(), ErrorKind::Signing);
    assert_eq!(transport.kind(), ErrorKind::Transport);
    assert_eq!(exchange.kind(), ErrorKind::Exchange);
    assert_eq!(none.kind(), ErrorKind::NoAuthMethod);
    assert!(!config.is_recoverable());
    assert!(!signing.is_recoverable());
    assert!(transport.is_recoverable());
    assert!(exchange.is_recoverable());
    assert!(!none.is_recoverable());
}
