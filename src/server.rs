use vstd::prelude::*;

use crate::error::ApiError;
use crate::model::{Entry, EntryResponse, NewEntryRequest};
use crate::registry::{
    conditional_insert, has_path, lists, owned_by, paths_unique, url_at, Registry, StoredRedirect,
};
use crate::text::{
    lemma_trim_by_ends, normalize_path, path_key, request_key, request_path_key, strip_back,
    strip_front, trim_by,
};

verus! {

/// The request methods that routing tells apart.
#[derive(Clone, Copy, Debug, PartialEq, Eq, Structural)]
pub enum Method {
    Get,
    Post,
    Other,
}

/// The handler that a request goes to.
#[derive(Clone, Copy, Debug, PartialEq, Eq, Structural)]
pub enum Route {
    /// `POST /`, behind the auth gate.
    Create,
    /// `GET /`, behind the auth gate.
    ListOwn,
    /// `GET /<path>`, open to all.
    Resolve,
    Unmatched,
}

pub open spec fn is_root(path: Seq<char>) -> bool {
    path.len() == 0 || path == seq!['/']
}

pub open spec fn route_of(method: Method, path: Seq<char>) -> Route {
    match method {
        Method::Post => if is_root(path) {
            Route::Create
        } else {
            Route::Unmatched
        },
        Method::Get => if is_root(path) {
            Route::ListOwn
        } else {
            Route::Resolve
        },
        Method::Other => Route::Unmatched,
    }
}

/// Picks the handler for a request by its method and full path.
pub fn route(method: Method, full_path: &str) -> (r: Route)
    ensures
        r == route_of(method, full_path@),
{
    let n = full_path.unicode_len();
    let root = n == 0 || (n == 1 && full_path.get_char(0) == '/');
    assert(root == is_root(full_path@)) by {
        if n == 1 && full_path@[0] == '/' {
            assert(full_path@ =~= seq!['/']);
        }
    }
    match method {
        Method::Post => if root {
            Route::Create
        } else {
            Route::Unmatched
        },
        Method::Get => if root {
            Route::ListOwn
        } else {
            Route::Resolve
        },
        Method::Other => Route::Unmatched,
    }
}

/// Whether a text parses as a URI.
pub uninterp spec fn parses_as_uri(s: Seq<char>) -> bool;

/// Relies on `http::Uri`'s `FromStr`, which refuses the empty string.
#[verifier::external_body]
fn uri_parses(s: &str) -> (r: bool)
    ensures
        r == parses_as_uri(s@),
        s@.len() == 0 ==> !r,
{
    s.parse::<warp::http::Uri>().is_ok()
}

/// A validated create request: the record to insert.
#[derive(Debug)]
pub struct NewRedirect {
    pub owner: String,
    pub url: String,
    pub path: String,
}

/// Validates a create request from `username`: the URL must parse, and the
/// path is normalised into its key.
pub fn new_entry(username: String, entry: NewEntryRequest) -> (r: Result<NewRedirect, ApiError>)
    ensures
        !parses_as_uri(entry.url@) ==> r == Err::<NewRedirect, ApiError>(
            ApiError::InvalidUri(entry.url),
        ),
        parses_as_uri(entry.url@) ==> (r matches Ok(n) && n.owner@ == username@ && n.url@
            == entry.url@ && n.path@ == path_key(entry.path@)),
{
    if !uri_parses(entry.url.as_str()) {
        return Err(ApiError::InvalidUri(entry.url));
    }
    let path = normalize_path(entry.path.as_str());
    Ok(NewRedirect { owner: username, url: entry.url, path })
}

/// The answer to a create, from the rows that the conditional insert wrote:
/// the location of the new redirect, or a conflict.
pub fn new_outcome(path: String, rows_affected: u64) -> (r: Result<String, ApiError>)
    ensures
        rows_affected == 1 ==> (r matches Ok(l) && l@ == path@),
        rows_affected != 1 ==> r == Err::<String, ApiError>(ApiError::PathAlreadyExists(path)),
{
    if rows_affected != 1 {
        Err(ApiError::PathAlreadyExists(path))
    } else {
        Ok(path)
    }
}

/// The answer to a resolve, from the target that the lookup found.
pub fn get_outcome(found: Option<String>) -> (r: Result<String, ApiError>)
    ensures
        match found {
            None => r == Err::<String, ApiError>(ApiError::NotFound),
            Some(u) => if parses_as_uri(u@) {
                r matches Ok(t) && t@ == u@
            } else {
                r == Err::<String, ApiError>(ApiError::InvalidUri(u))
            },
        },
{
    match found {
        None => Err(ApiError::NotFound),
        Some(u) => if uri_parses(u.as_str()) {
            Ok(u)
        } else {
            Err(ApiError::InvalidUri(u))
        },
    }
}

/// The listing of a user's entries.
pub fn get_own(entries: Vec<Entry>) -> (r: Vec<EntryResponse>)
    ensures
        r@.len() == entries@.len(),
        forall|k: int| 0 <= k < r@.len() ==> (#[trigger] r@[k]).shows(entries@[k]),
{
    let mut entries = entries;
    let ghost all = entries@;
    let mut taken: Vec<EntryResponse> = Vec::new();
    while entries.len() > 0
        invariant
            taken@.len() + entries@.len() == all.len(),
            entries@ == all.subrange(0, entries@.len() as int),
            forall|k: int|
                0 <= k < taken@.len() ==> (#[trigger] taken@[k]).shows(
                    all[all.len() - 1 - k],
                ),
        decreases entries@.len(),
    {
        let e = entries.pop().unwrap();
        taken.push(EntryResponse::from_entry(e));
    }
    let mut out: Vec<EntryResponse> = Vec::new();
    let ghost rev = taken@;
    while taken.len() > 0
        invariant
            out@.len() + taken@.len() == all.len(),
            rev.len() == all.len(),
            taken@ == rev.subrange(0, taken@.len() as int),
            forall|k: int|
                0 <= k < rev.len() ==> (#[trigger] rev[k]).shows(all[all.len() - 1 - k]),
            forall|k: int| 0 <= k < out@.len() ==> (#[trigger] out@[k]).shows(all[k]),
        decreases taken@.len(),
    {
        let x = taken.pop().unwrap();
        out.push(x);
    }
    out
}

/// Creates a redirect for `username` in `reg`, stamped `created`.
pub fn create_redirect(reg: &mut Registry, username: String, entry: NewEntryRequest, created: String) -> (r:
    Result<String, ApiError>)
    requires
        old(reg).wf(),
    ensures
        final(reg).wf(),
        !parses_as_uri(entry.url@) ==> {
            &&& r == Err::<String, ApiError>(ApiError::InvalidUri(entry.url))
            &&& final(reg).rows() == old(reg).rows()
        },
        parses_as_uri(entry.url@) && has_path(old(reg).rows(), path_key(entry.path@)) ==> {
            &&& r matches Err(ApiError::PathAlreadyExists(p)) && p@ == path_key(entry.path@)
            &&& final(reg).rows() == old(reg).rows()
        },
        parses_as_uri(entry.url@) && !has_path(old(reg).rows(), path_key(entry.path@)) ==> {
            &&& r matches Ok(l) && l@ == path_key(entry.path@)
            &&& final(reg).rows().len() == old(reg).rows().len() + 1
            &&& final(reg).rows().drop_last() == old(reg).rows()
            &&& final(reg).rows().last().owner@ == username@
            &&& final(reg).rows().last().path@ == path_key(entry.path@)
            &&& final(reg).rows().last().url@ == entry.url@
            &&& final(reg).rows().last().created@ == created@
        },
{
    let n = match new_entry(username, entry) {
        Err(e) => return Err(e),
        Ok(n) => n,
    };
    let path = n.path.clone();
    let rows = reg.insert_if_absent(
        StoredRedirect { owner: n.owner, path: n.path, url: n.url, created },
    );
    proof {
        if rows == 1 {
            assert(reg.rows().drop_last() =~= old(reg).rows());
        }
    }
    new_outcome(path, rows)
}

/// Resolves a request path against `reg`.
pub fn resolve_redirect(reg: &Registry, full_path: &str) -> (r: Result<String, ApiError>)
    requires
        reg.wf(),
    ensures
        match url_at(reg.rows(), request_key(full_path@)) {
            None => r == Err::<String, ApiError>(ApiError::NotFound),
            Some(u) => if parses_as_uri(u) {
                r matches Ok(t) && t@ == u
            } else {
                r matches Err(ApiError::InvalidUri(t)) && t@ == u
            },
        },
{
    let key = request_path_key(full_path);
    let found = reg.find_url(&key);
    get_outcome(found)
}

/// Lists the redirects that `username` made in `reg`.
pub fn list_own_redirects(reg: &Registry, username: &String) -> (r: Vec<EntryResponse>)
    ensures
        r@.len() == owned_by(reg.rows(), username@).len(),
        forall|k: int|
            0 <= k < r@.len() ==> {
                let row = #[trigger] owned_by(reg.rows(), username@)[k];
                &&& r@[k].path@ == row.path@
                &&& r@[k].url@ == row.url@
            },
{
    let entries = reg.entries_of(username);
    let r = get_own(entries);
    assert forall|k: int| 0 <= k < r@.len() implies {
        let row = #[trigger] owned_by(reg.rows(), username@)[k];
        &&& r@[k].path@ == row.path@
        &&& r@[k].url@ == row.url@
    } by {
        assert(lists(entries@[k], owned_by(reg.rows(), username@)[k]));
        assert(r@[k].shows(entries@[k]));
    }
    r
}

/// A key with no slash at either end, as a normalised path is.
spec fn slash_free_ends(k: Seq<char>) -> bool {
    k.len() == 0 || (k[0] != '/' && k.last() != '/')
}

proof fn lemma_request_key_of_slashed(k: Seq<char>)
    requires
        slash_free_ends(k),
    ensures
        request_key(seq!['/'] + k) == k,
        request_key(seq!['/'] + k + seq!['/']) == k,
{
    let s1 = seq!['/'] + k;
    let s2 = seq!['/'] + k + seq!['/'];
    assert(s1.drop_first() =~= k);
    assert(s2.drop_first() =~= k + seq!['/']);
    let k2 = k + seq!['/'];
    assert(k2.drop_last() =~= k);
    if k.len() == 0 {
        assert(strip_front(k, false) == k);
        assert(k2.drop_first() =~= k);
        assert(strip_front(k2, false) == k);
        assert(strip_back(k, false) == k);
    } else {
        assert(k2[0] == k[0]);
        assert(strip_front(k, false) == k);
        assert(strip_front(k2, false) == k2);
        assert(strip_back(k2, false) == strip_back(k, false));
        assert(strip_back(k, false) == k);
    }
}

/// Two creates of one path that was free, in either order: the first writes
/// its record and the second writes nothing, so one is answered with the
/// location and the other with `PathAlreadyExists`; afterwards exactly one
/// record holds the path.
pub proof fn lemma_one_create_per_path(
    rows: Seq<StoredRedirect>,
    first: StoredRedirect,
    second: StoredRedirect,
)
    requires
        paths_unique(rows),
        !has_path(rows, first.path@),
        first.path@ == second.path@,
    ensures
        ({
            let (after_first, n_first) = conditional_insert(rows, first);
            let (after_second, n_second) = conditional_insert(after_first, second);
            &&& n_first == 1
            &&& n_second == 0
            &&& after_second == rows.push(first)
            &&& paths_unique(after_second)
            &&& forall|i: int, j: int|
                0 <= i < after_second.len() && 0 <= j < after_second.len()
                    && after_second[i].path@ == first.path@ && after_second[j].path@
                    == first.path@ ==> i == j
        }),
{
    let after = rows.push(first);
    assert(after[rows.len() as int] == first);
    assert(has_path(after, second.path@));
}

/// After a create of `given`, stored under its key, the key resolves to the
/// target whether requested as `/key` or `/key/`; a key that no record holds
/// resolves to nothing.
pub proof fn lemma_resolve_after_create(
    rows: Seq<StoredRedirect>,
    row: StoredRedirect,
    given: Seq<char>,
    q: Seq<char>,
)
    requires
        paths_unique(rows),
        row.path@ == path_key(given),
        !has_path(rows, row.path@),
    ensures
        url_at(rows.push(row), request_key(seq!['/'] + row.path@)) == Some(row.url@),
        url_at(rows.push(row), request_key(seq!['/'] + row.path@ + seq!['/'])) == Some(row.url@),
        !has_path(rows, request_key(q)) ==> url_at(rows, request_key(q)) is None,
{
    lemma_trim_by_ends(trim_by(given, true), false);
    lemma_request_key_of_slashed(row.path@);
    let after = rows.push(row);
    let k = row.path@;
    assert(after[rows.len() as int] == row);
    assert(has_path(after, k));
    let j = choose|j: int| 0 <= j < after.len() && after[j].path@ == k;
    if j < rows.len() {
        assert(rows[j] == after[j]);
        assert(has_path(rows, k));
    }
    assert(j == rows.len());
}

/// A user's listing holds records of that user alone, each one stored.
pub proof fn lemma_listing_only_own(rows: Seq<StoredRedirect>, owner: Seq<char>)
    ensures
        forall|k: int|
            0 <= k < owned_by(rows, owner).len() ==> (#[trigger] owned_by(rows, owner)[k]).owner@
                == owner && rows.contains(owned_by(rows, owner)[k]),
    decreases rows.len(),
{
    if rows.len() > 0 {
        let init = rows.drop_last();
        lemma_listing_only_own(init, owner);
        let rest = owned_by(init, owner);
        assert forall|k: int| 0 <= k < owned_by(rows, owner).len() implies (#[trigger] owned_by(
            rows,
            owner,
        )[k]).owner@ == owner && rows.contains(owned_by(rows, owner)[k]) by {
            let x = owned_by(rows, owner)[k];
            if k < rest.len() {
                assert(x == rest[k]);
                assert(init.contains(x));
                let i = choose|i: int| 0 <= i < init.len() && init[i] == x;
                assert(rows[i] == x);
            } else {
                assert(x == rows.last());
                assert(rows[rows.len() - 1] == x);
            }
        }
    }
}

} // verus!
