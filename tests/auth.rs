use links::auth::{
    after_lookup, after_verify, auth_gate, auth_request, basic_auth, check_password,
    decode_auth_header, UserStore,
};
use links::error::ApiError;

const TEST_USER: &str = "test";
const TEST_PW: &str = "test123blub";
const TEST_PW_HASH: &str = "$2y$12$3lYfycMuf0IGK11QdlEZ6ufujBbJ5IOh4JGw5h9RIcnc1YiQOl5s6";

fn init_store() -> UserStore {
    let mut store = UserStore::new();
    assert!(store.add_user(TEST_USER.to_string(), TEST_PW_HASH.to_string()));
    store
}

#[test]
fn basic_auth_valid() {
    let store = init_store();

    let res = basic_auth(&store, Some(format!("{}:{}", TEST_USER, TEST_PW)));

    assert!(res.is_ok());
    assert_eq!("test", &res.unwrap());
}

#[test]
fn basic_auth_invalid_user() {
    let store = init_store();

    let res = basic_auth(
        &store,
        Some(format!("{}:{}", "not existant", "blub321test")),
    );

    if let Err(ApiError::Unauthorized) = res {
        assert!(true);
    } else {
        assert!(false);
    }
}

#[test]
fn basic_auth_invalid_pw() {
    let store = init_store();

    let mut old = String::from(TEST_PW);
    let mut new = String::with_capacity(old.capacity());

    while let Some(c) = old.pop() {
        new.push(c);
    }

    let res = basic_auth(&store, Some(format!("{}:{}", TEST_USER, new)));

    if let Err(ApiError::Unauthorized) = res {
        assert!(true);
    } else {
        assert!(false);
    }
}

#[test]
fn basic_auth_invalid_header() {
    let store = init_store();

    let res = basic_auth(
        &store,
        Some("something is not quite right here...".to_string()),
    );

    if let Err(ApiError::AuthHeaderDecode) = res {
        assert!(true);
    } else {
        assert!(false);
    }
}

#[test]
fn basic_auth_absent_header() {
    let store = init_store();
    assert_eq!(basic_auth(&store, None), Err(ApiError::AuthHeaderDecode));
}

#[test]
fn gate_accepts_encoded_credentials() {
    let store = init_store();
    let res = auth_gate(&store, Some("Basic dGVzdDp0ZXN0MTIzYmx1Yg==".to_string()));
    assert_eq!(res, Ok("test".to_string()));
}

#[test]
fn gate_rejects_malformed_headers() {
    let store = init_store();
    for raw in [
        None,
        Some("dGVzdDp0ZXN0MTIzYmx1Yg==".to_string()),
        Some("Bearer dGVzdDp0ZXN0MTIzYmx1Yg==".to_string()),
        Some("Basic !!!not base64".to_string()),
        Some("Basic //4=".to_string()),
        Some("Basic bm9jb2xvbg==".to_string()),
    ] {
        assert_eq!(auth_gate(&store, raw), Err(ApiError::AuthHeaderDecode));
    }
}

#[test]
fn gate_wrong_password_is_unauthorized() {
    let store = init_store();
    let header = format!("Basic {}", "dGVzdDp3cm9uZw==");
    assert_eq!(auth_gate(&store, Some(header)), Err(ApiError::Unauthorized));
}

#[test]
fn decode_header_reads_base64() {
    assert_eq!(
        decode_auth_header(Some("Basic dGVzdDp0ZXN0MTIzYmx1Yg==".to_string())),
        Some("test:test123blub".to_string())
    );
    assert_eq!(decode_auth_header(Some("Basic //4=".to_string())), None);
    assert_eq!(decode_auth_header(Some("Basic".to_string())), None);
}

#[test]
fn check_password_against_hash() {
    assert!(check_password(TEST_PW, TEST_PW_HASH));
    assert!(!check_password("bulb321tset", TEST_PW_HASH));
    assert!(!check_password(TEST_PW, "not a bcrypt hash"));
}

#[test]
fn request_splits_at_first_colon() {
    let (u, p) = auth_request(Some("user:pa:ss".to_string())).unwrap();
    assert_eq!(u, "user");
    assert_eq!(p, "pa:ss");
    let (u, p) = auth_request(Some(":".to_string())).unwrap();
    assert_eq!(u, "");
    assert_eq!(p, "");
    assert!(matches!(auth_request(Some("nocolon".to_string())), Err(ApiError::AuthHeaderDecode)));
}

#[test]
fn lookup_and_verify_steps() {
    let r = after_lookup("a".to_string(), "b".to_string(), Ok(None));
    assert!(matches!(r, Err(ApiError::Unauthorized)));
    let r = after_lookup("a".to_string(), "b".to_string(), Err(ApiError::DbError("down".to_string())));
    assert!(matches!(r, Err(ApiError::DbError(m)) if m == "down"));
    let c = after_lookup("a".to_string(), "b".to_string(), Ok(Some("h".to_string()))).unwrap();
    assert_eq!((c.username.as_str(), c.password.as_str(), c.pw_hash.as_str()), ("a", "b", "h"));
    assert_eq!(after_verify("a".to_string(), Some(true)), Ok("a".to_string()));
    assert_eq!(after_verify("a".to_string(), Some(false)), Err(ApiError::Unauthorized));
    assert_eq!(after_verify("a".to_string(), None), Err(ApiError::VerificationUnavailable));
}

#[test]
fn store_refuses_taken_name() {
    let mut store = init_store();
    assert!(!store.add_user(TEST_USER.to_string(), "other".to_string()));
    assert_eq!(store.find_hash(&TEST_USER.to_string()), Some(TEST_PW_HASH.to_string()));
    assert_eq!(store.find_hash(&"nobody".to_string()), None);
}
