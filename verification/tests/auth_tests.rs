use base64::prelude::BASE64_STANDARD;
use base64::Engine;
use tiny_proxy::auth::auth;
use tiny_proxy::User;

fn dima() -> Vec<User> {
    vec![User { login: String::from("dima"), pass: String::from("qwe123") }]
}

#[test]
fn basic_auth_accepts_configured_user() {
    let header = format!("Basic {}", BASE64_STANDARD.encode("dima:qwe123"));
    assert_eq!(auth(&dima(), header.as_bytes()), Some(true));
}

#[test]
fn basic_auth_rejects_wrong_password() {
    let header = format!("Basic {}", BASE64_STANDARD.encode("dima:wrong"));
    assert_eq!(auth(&dima(), header.as_bytes()), Some(false));
}

#[test]
fn non_basic_scheme_is_indeterminate() {
    assert_eq!(auth(&dima(), b"Digest abc"), None);
}

#[test]
fn invalid_base64_is_indeterminate() {
    assert_eq!(auth(&dima(), b"Basic !!!not-base64!!!"), None);
}

#[test]
fn invalid_utf8_after_decoding_is_indeterminate() {
    let header = format!("Basic {}", BASE64_STANDARD.encode([0xffu8, 0xfe, 0xfd]));
    assert_eq!(auth(&dima(), header.as_bytes()), None);
}

#[test]
fn missing_scheme_separator_is_indeterminate() {
    assert_eq!(auth(&dima(), b"Basic"), None);
}

#[test]
fn missing_colon_defaults_to_empty_password() {
    let users = vec![User { login: String::from("dima"), pass: String::new() }];
    let header = format!("Basic {}", BASE64_STANDARD.encode("dima"));
    assert_eq!(auth(&users, header.as_bytes()), Some(true));
    let header2 = format!("Basic {}", BASE64_STANDARD.encode("dima"));
    assert_eq!(auth(&dima(), header2.as_bytes()), Some(false));
}

#[test]
fn surrounding_whitespace_is_trimmed() {
    let header = format!("  Basic {}  ", BASE64_STANDARD.encode("dima:qwe123"));
    assert_eq!(auth(&dima(), header.as_bytes()), Some(true));
}

#[test]
fn duplicate_users_behave_as_independent_credentials() {
    let users = vec![
        User { login: String::from("dima"), pass: String::from("other") },
        User { login: String::from("dima"), pass: String::from("qwe123") },
    ];
    let header = format!("Basic {}", BASE64_STANDARD.encode("dima:qwe123"));
    assert_eq!(auth(&users, header.as_bytes()), Some(true));
}

#[test]
fn empty_user_list_never_matches_but_is_not_consulted() {
    let users: Vec<User> = Vec::new();
    let header = format!("Basic {}", BASE64_STANDARD.encode("dima:qwe123"));
    assert_eq!(auth(&users, header.as_bytes()), Some(false));
}
