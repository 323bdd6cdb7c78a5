use gcp_auth::credentials::{
    AuthorizedUserFile, AuthorizedUserRecord, ServiceAccountFile, ServiceAccountKey,
    INCOMPLETE_KEY_FILE, INCOMPLETE_USER_FILE,
};
use gcp_auth::error::{Error, ErrorKind};

fn key_file() -> ServiceAccountFile {
    ServiceAccountFile {
        client_email: Some("robot@project.example".to_string()),
        private_key: Some("key text".to_string()),
        token_uri: Some("https://oauth2.example/token".to_string()),
        project_id: Some("project".to_string()),
    }
}

fn user_file() -> AuthorizedUserFile {
    AuthorizedUserFile {
        client_id: Some("client".to_string()),
        client_secret: Some("hush".to_string()),
        refresh_token: Some("again".to_string()),
    }
}

#[test]
fn service_account_key_holds_the_fields_of_its_file() {
    let key = ServiceAccountKey::from_file(key_file()).unwrap();
    assert_eq!(key.client_email(), "robot@project.example");
    assert_eq!(key.private_key(), "key text");
    assert_eq!(key.token_uri(), "https://oauth2.example/token");
    assert_eq!(key.project_id(), "project");
}

#[test]
fn service_account_file_without_private_key_is_a_config_error() {
    let mut file = key_file();
    file.private_key = None;
    let failure = ServiceAccountKey::from_file(file).unwrap_err();
    assert_eq!(failure, Error::ConfigError(INCOMPLETE_KEY_FILE.to_string()));
    assert_eq!(failure.kind(), ErrorKind::Config);
}

#[test]
fn service_account_file_without_any_one_field_is_a_config_error() {
    let mut file = key_file();
    file.client_email = None;
    assert_eq!(ServiceAccountKey::from_file(file).unwrap_err().kind(), ErrorKind::Config);
    let mut file = key_file();
    file.token_uri = None;
    assert_eq!(ServiceAccountKey::from_file(file).unwrap_err().kind(), ErrorKind::Config);
    let mut file = key_file();
    file.project_id = None;
    assert_eq!(ServiceAccountKey::from_file(file).unwrap_err().kind(), ErrorKind::Config);
    let empty = ServiceAccountFile { client_email: None, private_key: None, token_uri: None, project_id: None };
    assert_eq!(ServiceAccountKey::from_file(empty).unwrap_err().kind(), ErrorKind::Config);
}

#[test]
fn service_account_file_with_empty_fields_is_accepted() {
    let file = ServiceAccountFile {
        client_email: Some(String::new()),
        private_key: Some(String::new()),
        token_uri: Some(String::new()),
        project_id: Some(String::new()),
    };
    let key = ServiceAccountKey::from_file(file).unwrap();
    assert_eq!(key.client_email(), "");
}

#[test]
fn authorized_user_holds_the_fields_of_its_file() {
    let user = AuthorizedUserRecord::from_file(user_file()).unwrap();
    assert_eq!(user.client_id(), "client");
    assert_eq!(user.client_secret(), "hush");
    assert_eq!(user.refresh_token(), "again");
}

#[test]
fn authorized_user_file_without_a_field_is_a_config_error() {
    let mut file = user_file();
    file.refresh_token = None;
    assert_eq!(
        AuthorizedUserRecord::from_file(file).unwrap_err(),
        Error::ConfigError(INCOMPLETE_USER_FILE.to_string())
    );
    let mut file = user_file();
    file.client_id = None;
    assert_eq!(AuthorizedUserRecord::from_file(file).unwrap_err().kind(), ErrorKind::Config);
    let mut file = user_file();
    file.client_secret = None;
    assert_eq!(AuthorizedUserRecord::from_file(file).unwrap_err().kind(), ErrorKind::Config);
}
