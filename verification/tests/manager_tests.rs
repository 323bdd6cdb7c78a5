use gcp_auth::credentials::{AuthorizedUserFile, AuthorizedUserRecord};
use gcp_auth::manager::Step;
use gcp_auth::resolver::ResolverEvent;
use gcp_auth::strategy::{CredentialStrategy, METADATA_TOKEN_URI, REFRESH_TOKEN_URI};
use gcp_auth::wire::{HttpReply, Method, TokenBody};
use gcp_auth::{init, AuthenticationManager, Error, Token};

fn user() -> AuthorizedUserRecord {
    AuthorizedUserRecord::from_file(AuthorizedUserFile {
        client_id: Some("client".to_string()),
        client_secret: Some("hush".to_string()),
        refresh_token: Some("again".to_string()),
    })
    .unwrap()
}

fn answer(value: &str, expires_in: u64) -> HttpReply {
    HttpReply::Answered {
        status: 200,
        body: Some(TokenBody { access_token: Some(value.to_string()), expires_in: Some(expires_in) }),
    }
}

fn ready(step: Step) -> Token {
    match step {
        Step::Ready(token) => token,
        other => panic!("unexpected step {:?}", other),
    }
}

#[test]
fn authorized_user_exchanges_its_refresh_token_and_applies_the_lifetime() {
    let state = init(None, None)
        .step(ResolverEvent::MetadataProbe(HttpReply::Unreachable("down".to_string())))
        .step(ResolverEvent::UserFile(Ok(AuthorizedUserFile {
            client_id: Some("client".to_string()),
            client_secret: Some("hush".to_string()),
            refresh_token: Some("again".to_string()),
        })));
    let mut manager = state.finish().unwrap().unwrap();
    match manager.get_token(1, &["scope"], 1000) {
        Step::Issue(request) => {
            assert_eq!(request.method, Method::Post);
            assert_eq!(request.uri, REFRESH_TOKEN_URI);
            assert_eq!(
                request.body,
                "grant_type=refresh_token&client_id=client&client_secret=hush&refresh_token=again"
            );
        }
        other => panic!("unexpected step {:?}", other),
    }
    let delivery = manager.complete(&["scope"], answer("access", 3599), 1002);
    assert_eq!(delivery.callers, vec![1]);
    let token = delivery.outcome.unwrap();
    assert_eq!(token.as_str(), "access");
    assert_eq!(token.expires_at(), 4601);
    let cached = ready(manager.get_token(2, &["scope"], 1003));
    assert_eq!(cached.as_str(), "access");
    assert_eq!(cached.expires_at(), 4601);
}

#[test]
fn metadata_service_is_asked_for_the_scopes_in_the_order_requested() {
    let mut manager = AuthenticationManager::new(CredentialStrategy::MetadataService);
    match manager.get_token(1, &["b", "a"], 0) {
        Step::Issue(request) => {
            assert_eq!(request.uri, format!("{}?scopes=b%2Ca", METADATA_TOKEN_URI))
        }
        other => panic!("unexpected step {:?}", other),
    }
    manager.complete(&["a", "b"], answer("t", 100), 0);
    assert_eq!(ready(manager.get_token(2, &["a", "b"], 1)).as_str(), "t");
    assert_eq!(ready(manager.get_token(3, &["b", "a"], 1)).as_str(), "t");
}

#[test]
fn concurrent_callers_share_one_issue() {
    let mut manager = AuthenticationManager::new(CredentialStrategy::MetadataService);
    let mut issues = 0;
    for caller in 0..25u64 {
        match manager.get_token(caller, &["x", "y"], 10) {
            Step::Issue(_) => issues += 1,
            Step::Wait => {}
            other => panic!("unexpected step {:?}", other),
        }
    }
    assert_eq!(issues, 1);
    let delivery = manager.complete(&["y", "x"], answer("one", 300), 11);
    assert_eq!(delivery.callers, (0..25u64).collect::<Vec<u64>>());
    assert_eq!(delivery.outcome.unwrap().as_str(), "one");
    for caller in 25..30u64 {
        assert_eq!(ready(manager.get_token(caller, &["x", "y"], 12)).as_str(), "one");
    }
}

#[test]
fn transport_failure_is_surfaced_and_the_next_call_retries() {
    let mut manager = AuthenticationManager::new(CredentialStrategy::AuthorizedUser(user()));
    assert!(matches!(manager.get_token(1, &["a"], 10), Step::Issue(_)));
    assert!(matches!(manager.get_token(2, &["a"], 11), Step::Wait));
    let delivery = manager.complete(&["a"], HttpReply::Unreachable("timed out".to_string()), 40);
    assert_eq!(delivery.callers, vec![1, 2]);
    let failure = delivery.outcome.unwrap_err();
    assert_eq!(failure, Error::TransportError("timed out".to_string()));
    assert!(failure.is_recoverable());
    assert!(matches!(manager.get_token(3, &["a"], 41), Step::Issue(_)));
}

#[test]
fn expired_token_is_replaced_by_a_later_one() {
    let mut manager = AuthenticationManager::new(CredentialStrategy::MetadataService);
    assert!(matches!(manager.get_token(1, &["a"], 0), Step::Issue(_)));
    manager.complete(&["a"], answer("first", 1000), 0);
    assert_eq!(ready(manager.get_token(2, &["a"], 979)).as_str(), "first");
    assert!(matches!(manager.get_token(3, &["a"], 980), Step::Issue(_)));
    assert!(matches!(manager.get_token(4, &["a"], 981), Step::Wait));
    let delivery = manager.complete(&["a"], answer("second", 1000), 982);
    assert_eq!(delivery.callers, vec![3, 4]);
    let token = ready(manager.get_token(5, &["a"], 983));
    assert_eq!(token.as_str(), "second");
    assert_eq!(token.expires_at(), 1982);
    assert!(token.expires_at() > 1000);
}

#[test]
fn manager_keeps_its_strategy() {
    let mut manager = AuthenticationManager::new(CredentialStrategy::MetadataService);
    assert!(matches!(manager.strategy(), CredentialStrategy::MetadataService));
    manager.get_token(1, &["a"], 0);
    manager.complete(&["a"], answer("t", 10), 0);
    assert!(matches!(manager.strategy(), CredentialStrategy::MetadataService));
}
