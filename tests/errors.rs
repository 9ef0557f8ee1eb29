use links::config::ServerConfig;
use links::error::{handle_rejection, ApiError, ApiErrorMessage};
use links::text::{normalize_path, request_path_key, split_credentials, strip_basic_prefix};

#[test]
fn status_codes() {
    let cases = [
        (ApiError::Unauthorized, 401),
        (ApiError::AuthHeaderDecode, 400),
        (ApiError::NotFound, 404),
        (ApiError::PathAlreadyExists("p".to_string()), 409),
        (ApiError::InvalidUri("u".to_string()), 400),
        (ApiError::DbError("db".to_string()), 500),
        (ApiError::VerificationUnavailable, 500),
    ];
    for (e, code) in cases {
        assert_eq!(e.status_code(), code);
    }
}

#[test]
fn release_messages_are_status_lines() {
    let m = ApiErrorMessage::from_error(&ApiError::Unauthorized, false);
    assert_eq!(m.status_code, 401);
    assert_eq!(m.message, "401 Unauthorized");
    let m = ApiErrorMessage::from_error(&ApiError::PathAlreadyExists("go".to_string()), false);
    assert_eq!(m.message, "409 Conflict");
    let m = ApiErrorMessage::from_error(&ApiError::DbError("secret".to_string()), false);
    assert_eq!(m.message, "500 Internal Server Error");
}

#[test]
fn debug_messages_name_the_error() {
    let m = ApiErrorMessage::from_error(&ApiError::PathAlreadyExists("go".to_string()), true);
    assert_eq!(m.status_code, 409);
    assert_eq!(m.message, "path go already exists");
    let m = ApiErrorMessage::from_error(&ApiError::InvalidUri("x y".to_string()), true);
    assert_eq!(m.message, "invalid uri x y");
    let m = ApiErrorMessage::from_error(&ApiError::DbError("db down".to_string()), true);
    assert_eq!(m.message, "db down");
}

#[test]
fn rejections() {
    let r = handle_rejection(None, true);
    assert_eq!(r.status, 404);
    assert!(r.body.is_none());
    let r = handle_rejection(Some(&ApiError::NotFound), true);
    assert_eq!(r.status, 404);
    assert!(r.body.is_none());
    let r = handle_rejection(Some(&ApiError::AuthHeaderDecode), false);
    assert_eq!(r.status, 400);
    assert_eq!(r.body.unwrap().message, "400 Bad Request");
    let r = handle_rejection(Some(&ApiError::Unauthorized), true);
    assert_eq!(r.status, 401);
    assert_eq!(r.body.unwrap().message, "unauthorized");
}

#[test]
fn default_config() {
    let c = ServerConfig::default();
    assert_eq!(c.async_threads, 2);
    assert_eq!(c.blocking_threads, 128);
    assert_eq!(c.auth_threads, 4);
    assert_eq!(c.port, 5000);
    assert_eq!(c.db_conn, "sqlite::memory:");
}

#[test]
fn path_normalisation() {
    assert_eq!(normalize_path(" foo/ "), "foo");
    assert_eq!(normalize_path("\u{3000}/a/b/\u{85}"), "a/b");
    assert_eq!(normalize_path("/ a"), " a");
    assert_eq!(normalize_path("   "), "");
    assert_eq!(request_path_key("/abc/"), "abc");
    assert_eq!(request_path_key("//"), "");
    assert_eq!(request_path_key("/ a /"), " a ");
}

#[test]
fn credentials_and_prefix() {
    assert_eq!(split_credentials("a:b"), Some(("a".to_string(), "b".to_string())));
    assert_eq!(split_credentials("ab"), None);
    assert_eq!(strip_basic_prefix("Basic xyz"), Some("xyz".to_string()));
    assert_eq!(strip_basic_prefix("basic xyz"), None);
    assert_eq!(strip_basic_prefix("Basi"), None);
}
