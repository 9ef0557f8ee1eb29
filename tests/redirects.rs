use links::error::ApiError;
use links::model::{Entry, NewEntryRequest};
use links::registry::{Registry, StoredRedirect};
use links::server::{
    create_redirect, get_outcome, get_own, list_own_redirects, new_entry, new_outcome,
    resolve_redirect, route, Method, Route,
};

const CREATED: &str = "2021-03-04 05:06:07";

fn request(path: &str, url: &str) -> NewEntryRequest {
    NewEntryRequest { path: path.to_string(), url: url.to_string() }
}

fn create(reg: &mut Registry, user: &str, path: &str, url: &str) -> Result<String, ApiError> {
    create_redirect(reg, user.to_string(), request(path, url), CREATED.to_string())
}

#[test]
fn go_scenario() {
    let mut reg = Registry::new();
    assert_eq!(create(&mut reg, "alice", "go", "https://golang.org"), Ok("go".to_string()));
    assert_eq!(resolve_redirect(&reg, "/go"), Ok("https://golang.org".to_string()));
    assert_eq!(
        create(&mut reg, "bob", "go", "https://go.dev"),
        Err(ApiError::PathAlreadyExists("go".to_string()))
    );
    assert_eq!(resolve_redirect(&reg, "/go"), Ok("https://golang.org".to_string()));
}

#[test]
fn resolve_unknown_and_trailing_slash() {
    let mut reg = Registry::new();
    assert_eq!(resolve_redirect(&reg, "/abc"), Err(ApiError::NotFound));
    assert!(create(&mut reg, "alice", "abc", "https://example.com").is_ok());
    assert_eq!(resolve_redirect(&reg, "/abc"), Ok("https://example.com".to_string()));
    assert_eq!(resolve_redirect(&reg, "/abc/"), Ok("https://example.com".to_string()));
    assert_eq!(resolve_redirect(&reg, "/abd"), Err(ApiError::NotFound));
}

#[test]
fn path_is_trimmed_on_create() {
    let mut reg = Registry::new();
    assert_eq!(create(&mut reg, "alice", " foo/ ", "https://example.com/foo"), Ok("foo".to_string()));
    assert_eq!(resolve_redirect(&reg, "/foo"), Ok("https://example.com/foo".to_string()));
    let listed = list_own_redirects(&reg, &"alice".to_string());
    assert_eq!(listed.len(), 1);
    assert_eq!(listed[0].path, "foo");
}

#[test]
fn second_create_of_a_path_conflicts() {
    let mut reg = Registry::new();
    assert!(create(&mut reg, "alice", "x", "https://a.example").is_ok());
    assert_eq!(
        create(&mut reg, "bob", "/x/", "https://b.example"),
        Err(ApiError::PathAlreadyExists("x".to_string()))
    );
    assert_eq!(list_own_redirects(&reg, &"bob".to_string()).len(), 0);
    assert_eq!(resolve_redirect(&reg, "x"), Ok("https://a.example".to_string()));
}

#[test]
fn invalid_url_is_refused() {
    let mut reg = Registry::new();
    assert_eq!(
        create(&mut reg, "alice", "bad", "not a uri"),
        Err(ApiError::InvalidUri("not a uri".to_string()))
    );
    assert_eq!(create(&mut reg, "alice", "bad", ""), Err(ApiError::InvalidUri(String::new())));
    assert_eq!(resolve_redirect(&reg, "/bad"), Err(ApiError::NotFound));
}

#[test]
fn listing_holds_own_entries_only() {
    let mut reg = Registry::new();
    assert!(create(&mut reg, "alice", "a1", "https://a.example/1").is_ok());
    assert!(create(&mut reg, "bob", "b1", "https://b.example/1").is_ok());
    assert!(create(&mut reg, "alice", "a2", "https://a.example/2").is_ok());
    let listed = list_own_redirects(&reg, &"alice".to_string());
    let paths: Vec<&str> = listed.iter().map(|e| e.path.as_str()).collect();
    assert_eq!(paths, vec!["a1", "a2"]);
    assert_eq!(listed[1].url, "https://a.example/2");
    assert_eq!(listed[0].created.year, 2021);
    assert_eq!(listed[0].created.second, 7);
    let listed = list_own_redirects(&reg, &"bob".to_string());
    assert_eq!(listed.len(), 1);
    assert_eq!(listed[0].path, "b1");
    assert_eq!(list_own_redirects(&reg, &"carol".to_string()).len(), 0);
}

#[test]
fn registry_conditional_insert() {
    let mut reg = Registry::new();
    let row = |owner: &str| StoredRedirect {
        owner: owner.to_string(),
        path: "p".to_string(),
        url: "https://example.com".to_string(),
        created: CREATED.to_string(),
    };
    assert_eq!(reg.insert_if_absent(row("alice")), 1);
    assert_eq!(reg.insert_if_absent(row("bob")), 0);
    assert_eq!(reg.find_url(&"p".to_string()), Some("https://example.com".to_string()));
    assert_eq!(reg.entries_of(&"bob".to_string()).len(), 0);
}

#[test]
fn handler_steps() {
    let n = new_entry("alice".to_string(), request("\t/go//\n", "https://golang.org")).unwrap();
    assert_eq!((n.owner.as_str(), n.url.as_str(), n.path.as_str()), ("alice", "https://golang.org", "go"));
    assert_eq!(new_outcome("go".to_string(), 1), Ok("go".to_string()));
    assert_eq!(new_outcome("go".to_string(), 0), Err(ApiError::PathAlreadyExists("go".to_string())));
    assert_eq!(get_outcome(None), Err(ApiError::NotFound));
    assert_eq!(get_outcome(Some("https://x.example".to_string())), Ok("https://x.example".to_string()));
    assert_eq!(
        get_outcome(Some("bad uri".to_string())),
        Err(ApiError::InvalidUri("bad uri".to_string()))
    );
}

#[test]
fn listing_with_unparsable_date_uses_sentinel() {
    let entries = vec![
        Entry { path: "a".to_string(), url: "https://a".to_string(), created: "garbage".to_string() },
        Entry { path: "b".to_string(), url: "https://b".to_string(), created: "1999-12-31 23:59:58".to_string() },
    ];
    let out = get_own(entries);
    assert_eq!(out.len(), 2);
    assert_eq!(out[0].path, "a");
    let c = out[0].created;
    assert_eq!((c.year, c.month, c.day, c.hour, c.minute, c.second), (0, 1, 1, 0, 0, 0));
    let c = out[1].created;
    assert_eq!((c.year, c.month, c.day, c.hour, c.minute, c.second), (1999, 12, 31, 23, 59, 58));
}

#[test]
fn routes_are_exclusive() {
    assert_eq!(route(Method::Post, "/"), Route::Create);
    assert_eq!(route(Method::Get, "/"), Route::ListOwn);
    assert_eq!(route(Method::Get, ""), Route::ListOwn);
    assert_eq!(route(Method::Get, "/go"), Route::Resolve);
    assert_eq!(route(Method::Post, "/go"), Route::Unmatched);
    assert_eq!(route(Method::Other, "/"), Route::Unmatched);
}
