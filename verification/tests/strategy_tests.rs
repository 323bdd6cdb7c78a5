use gcp_auth::credentials::{AuthorizedUserFile, AuthorizedUserRecord};
use gcp_auth::strategy::{
    build_metadata_probe, build_metadata_request, build_refresh_request, CredentialStrategy,
    METADATA_PROBE_URI, METADATA_TOKEN_URI, REFRESH_TOKEN_URI,
};
use gcp_auth::wire::{Field, Method};

fn user() -> AuthorizedUserRecord {
    AuthorizedUserRecord::from_file(AuthorizedUserFile {
        client_id: Some("client id".to_string()),
        client_secret: Some("hush&hush".to_string()),
        refresh_token: Some("1//again".to_string()),
    })
    .unwrap()
}

fn pairs(fields: &[Field]) -> Vec<(String, String)> {
    fields.iter().map(|f| (f.name.clone(), f.value.clone())).collect()
}

fn pair(name: &str, value: &str) -> (String, String) {
    (name.to_string(), value.to_string())
}

#[test]
fn metadata_probe_reads_the_project_identifier() {
    let request = build_metadata_probe();
    assert_eq!(request.method, Method::Get);
    assert_eq!(request.uri, METADATA_PROBE_URI);
    assert_eq!(
        request.uri,
        "http://metadata.google.internal/computeMetadata/v1/project/project-id"
    );
    assert_eq!(pairs(&request.headers), vec![pair("Metadata-Flavor", "Google")]);
    assert_eq!(request.body, "");
}

#[test]
fn metadata_request_names_the_scopes_in_one_parameter() {
    let request = build_metadata_request(&["b", "a"]);
    assert_eq!(request.method, Method::Get);
    assert_eq!(request.uri, format!("{}?scopes=b%2Ca", METADATA_TOKEN_URI));
    assert_eq!(
        request.uri,
        "http://metadata.google.internal/computeMetadata/v1/instance/service-accounts/default/token?scopes=b%2Ca"
    );
    assert_eq!(pairs(&request.headers), vec![pair("Metadata-Flavor", "Google")]);
    assert_eq!(request.body, "");
}

#[test]
fn metadata_request_encodes_the_scopes() {
    let request = build_metadata_request(&["https://example.test/auth/cloud platform"]);
    assert_eq!(
        request.uri,
        format!("{}?scopes=https%3A%2F%2Fexample.test%2Fauth%2Fcloud+platform", METADATA_TOKEN_URI)
    );
    let none = build_metadata_request(&[]);
    assert_eq!(none.uri, format!("{}?scopes=", METADATA_TOKEN_URI));
}

#[test]
fn refresh_request_posts_the_user_credentials() {
    let request = build_refresh_request(&user());
    assert_eq!(request.method, Method::Post);
    assert_eq!(request.uri, REFRESH_TOKEN_URI);
    assert_eq!(request.uri, "https://accounts.google.com/o/oauth2/token");
    assert_eq!(
        pairs(&request.headers),
        vec![pair("Content-Type", "application/x-www-form-urlencoded")]
    );
    assert_eq!(
        request.body,
        "grant_type=refresh_token&client_id=client+id&client_secret=hush%26hush&refresh_token=1%2F%2Fagain"
    );
}

#[test]
fn metadata_service_issues_with_its_request_at_any_instant() {
    let request = CredentialStrategy::MetadataService.begin_issue(&["s"], u64::MAX).unwrap();
    assert_eq!(request.uri, format!("{}?scopes=s", METADATA_TOKEN_URI));
    assert_eq!(request.method, Method::Get);
}

#[test]
fn authorized_user_issues_with_the_refresh_exchange() {
    let request =
        CredentialStrategy::AuthorizedUser(user()).begin_issue(&["s"], u64::MAX).unwrap();
    assert_eq!(request.uri, REFRESH_TOKEN_URI);
    assert!(request.body.starts_with("grant_type=refresh_token&"));
}
