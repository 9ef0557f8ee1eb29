use vstd::prelude::*;
use vstd::utf8::{decode_utf8, valid_utf8};

use crate::error::ApiError;
use crate::text::{
    credentials, has_basic_prefix, has_colon, lemma_credentials_none, lemma_credentials_split,
    split_credentials, strip_basic_prefix,
};

verus! {

#[verifier::external_type_specification]
#[verifier::external_body]
pub struct ExDecodeError(base64::DecodeError);

#[verifier::external_type_specification]
#[verifier::external_body]
pub struct ExBcryptError(bcrypt::BcryptError);

/// The bytes that a base64 text encodes, if it encodes any.
pub uninterp spec fn base64_decoded(s: Seq<char>) -> Option<Seq<u8>>;

/// Whether a password matches a bcrypt hash, or `None` where the hash is
/// malformed.
pub uninterp spec fn bcrypt_verdict(password: Seq<char>, hash: Seq<char>) -> Option<bool>;

/// Relies on `base64::decode`: the bytes that `s` encodes in the standard
/// alphabet, or an error where it encodes none.
#[verifier::external_body]
fn decode_base64(s: &str) -> (r: Result<Vec<u8>, base64::DecodeError>)
    ensures
        r is Ok <==> base64_decoded(s@) is Some,
        r matches Ok(v) ==> base64_decoded(s@) == Some(v@),
{
    base64::decode(s)
}

/// Relies on `String::from_utf8`: the text that the bytes encode where they
/// are valid UTF-8, an error otherwise.
#[verifier::external_body]
fn utf8_text(bytes: Vec<u8>) -> (r: Option<String>)
    ensures
        r is Some <==> valid_utf8(bytes@),
        r matches Some(t) ==> t@ == decode_utf8(bytes@),
{
    match String::from_utf8(bytes) {
        Ok(s) => Some(s),
        Err(_) => None,
    }
}

/// Relies on `bcrypt::verify`: it hashes the password with the cost and salt
/// of `hash` and compares; a malformed hash is an error.
#[verifier::external_body]
fn bcrypt_verify(password: &str, hash: &str) -> (r: Result<bool, bcrypt::BcryptError>)
    ensures
        r is Ok <==> bcrypt_verdict(password@, hash@) is Some,
        r matches Ok(b) ==> bcrypt_verdict(password@, hash@) == Some(b),
{
    bcrypt::verify(password, hash)
}

pub open spec fn opt_view(o: Option<String>) -> Option<Seq<char>> {
    match o {
        Some(s) => Some(s@),
        None => None,
    }
}

pub open spec fn result_view(r: Result<String, ApiError>) -> Result<Seq<char>, ApiError> {
    match r {
        Ok(s) => Ok(s@),
        Err(e) => Err(e),
    }
}

/// The credentials that a raw `Authorization` header carries: the text after
/// `Basic `, decoded from base64, read as UTF-8.
pub open spec fn decoded_header(raw: Option<Seq<char>>) -> Option<Seq<char>> {
    match raw {
        None => None,
        Some(h) => if !has_basic_prefix(h) {
            None
        } else {
            match base64_decoded(h.subrange(6, h.len() as int)) {
                None => None,
                Some(b) => if valid_utf8(b) {
                    Some(decode_utf8(b))
                } else {
                    None
                },
            }
        },
    }
}

/// A password matches a stored hash when bcrypt says so; a malformed hash
/// matches nothing.
pub open spec fn password_matches(password: Seq<char>, hash: Seq<char>) -> bool {
    bcrypt_verdict(password, hash) == Some(true)
}

/// What the auth gate yields for decoded credentials `header`, given the
/// users and their password hashes.
pub open spec fn auth_outcome(users: Map<Seq<char>, Seq<char>>, header: Option<Seq<char>>) -> Result<
    Seq<char>,
    ApiError,
> {
    match header {
        None => Err(ApiError::AuthHeaderDecode),
        Some(h) => match credentials(h) {
            None => Err(ApiError::AuthHeaderDecode),
            Some((u, p)) => if users.contains_key(u) && password_matches(p, users[u]) {
                Ok(u)
            } else {
                Err(ApiError::Unauthorized)
            },
        },
    }
}

/// Reads the credentials out of a raw `Authorization` header; `None` where
/// the header is absent or does not decode.
pub fn decode_auth_header(raw: Option<String>) -> (r: Option<String>)
    ensures
        opt_view(r) == decoded_header(opt_view(raw)),
{
    let h = match raw {
        None => return None,
        Some(h) => h,
    };
    let encoded = match strip_basic_prefix(h.as_str()) {
        None => return None,
        Some(e) => e,
    };
    match decode_base64(encoded.as_str()) {
        Err(_) => None,
        Ok(bytes) => utf8_text(bytes),
    }
}

/// Checks a password against a stored bcrypt hash; a malformed hash fails.
pub fn check_password(password: &str, pw_hash: &str) -> (r: bool)
    ensures
        r == password_matches(password@, pw_hash@),
{
    match bcrypt_verify(password, pw_hash) {
        Ok(b) => b,
        Err(_) => false,
    }
}

/// A password check to run: the user, the password given, the stored hash.
#[derive(Debug)]
pub struct PasswordCheck {
    pub username: String,
    pub password: String,
    pub pw_hash: String,
}

/// First step of the auth gate: splits decoded credentials into user name
/// and password.
pub fn auth_request(header: Option<String>) -> (r: Result<(String, String), ApiError>)
    ensures
        match opt_view(header) {
            None => r == Err::<(String, String), ApiError>(ApiError::AuthHeaderDecode),
            Some(h) => match credentials(h) {
                None => r == Err::<(String, String), ApiError>(ApiError::AuthHeaderDecode),
                Some((u, p)) => r matches Ok((ru, rp)) && ru@ == u && rp@ == p,
            },
        },
{
    match header {
        None => Err(ApiError::AuthHeaderDecode),
        Some(h) => match split_credentials(h.as_str()) {
            None => Err(ApiError::AuthHeaderDecode),
            Some(c) => Ok(c),
        },
    }
}

/// Second step: what the credential store returned for the user. An unknown
/// user is `Unauthorized`, as a wrong password is; a known one leads to a
/// password check.
pub fn after_lookup(username: String, password: String, found: Result<Option<String>, ApiError>) -> (r:
    Result<PasswordCheck, ApiError>)
    ensures
        match found {
            Err(e) => r == Err::<PasswordCheck, ApiError>(e),
            Ok(None) => r == Err::<PasswordCheck, ApiError>(ApiError::Unauthorized),
            Ok(Some(h)) => r matches Ok(c) && c.username@ == username@ && c.password@ == password@
                && c.pw_hash@ == h@,
        },
{
    match found {
        Err(e) => Err(e),
        Ok(None) => Err(ApiError::Unauthorized),
        Ok(Some(pw_hash)) => Ok(PasswordCheck { username, password, pw_hash }),
    }
}

/// Last step: the reply of the password check, `None` where it never came.
pub fn after_verify(username: String, reply: Option<bool>) -> (r: Result<String, ApiError>)
    ensures
        match reply {
            Some(true) => r matches Ok(u) && u@ == username@,
            Some(false) => r == Err::<String, ApiError>(ApiError::Unauthorized),
            None => r == Err::<String, ApiError>(ApiError::VerificationUnavailable),
        },
{
    match reply {
        Some(true) => Ok(username),
        Some(false) => Err(ApiError::Unauthorized),
        None => Err(ApiError::VerificationUnavailable),
    }
}

/// A user of the credential store.
#[derive(Debug)]
pub struct UserRecord {
    pub username: String,
    pub pw_hash: String,
}

/// The hash stored for `name`: that of the first record that holds it.
pub open spec fn hash_of(users: Seq<UserRecord>, name: Seq<char>) -> Option<Seq<char>>
    decreases users.len(),
{
    if users.len() == 0 {
        None
    } else if users[0].username@ == name {
        Some(users[0].pw_hash@)
    } else {
        hash_of(users.drop_first(), name)
    }
}

proof fn lemma_hash_of_push(users: Seq<UserRecord>, rec: UserRecord, name: Seq<char>)
    ensures
        hash_of(users.push(rec), name) == (if hash_of(users, name) is Some {
            hash_of(users, name)
        } else if rec.username@ == name {
            Some(rec.pw_hash@)
        } else {
            None
        }),
    decreases users.len(),
{
    if users.len() > 0 {
        assert(users.push(rec)[0] == users[0]);
        assert(users.push(rec).drop_first() =~= users.drop_first().push(rec));
        lemma_hash_of_push(users.drop_first(), rec, name);
    } else {
        assert(users.push(rec)[0] == rec);
        assert(users.push(rec).drop_first() =~= Seq::<UserRecord>::empty());
        assert(hash_of(Seq::<UserRecord>::empty(), name) is None);
    }
}

/// An in-memory credential store: user names and their password hashes.
pub struct UserStore {
    users: Vec<UserRecord>,
}

impl View for UserStore {
    type V = Map<Seq<char>, Seq<char>>;

    closed spec fn view(&self) -> Map<Seq<char>, Seq<char>> {
        Map::new(
            |u: Seq<char>| hash_of(self.users@, u) is Some,
            |u: Seq<char>| hash_of(self.users@, u)->0,
        )
    }
}

impl UserStore {
    pub fn new() -> (r: UserStore)
        ensures
            r@ == Map::<Seq<char>, Seq<char>>::empty(),
    {
        let r = UserStore { users: Vec::new() };
        assert(r@ =~= Map::<Seq<char>, Seq<char>>::empty());
        r
    }

    /// Adds a user; refused, and `false`, where the name is taken.
    pub fn add_user(&mut self, username: String, pw_hash: String) -> (r: bool)
        ensures
            r == !old(self)@.contains_key(username@),
            final(self)@ == (if r {
                old(self)@.insert(username@, pw_hash@)
            } else {
                old(self)@
            }),
    {
        if self.find_hash(&username).is_some() {
            return false;
        }
        let rec = UserRecord { username, pw_hash };
        proof {
            assert forall|u: Seq<char>| true implies hash_of(self.users@.push(rec), u) == (if hash_of(
                self.users@,
                u,
            ) is Some {
                hash_of(self.users@, u)
            } else if rec.username@ == u {
                Some(rec.pw_hash@)
            } else {
                None
            }) by {
                lemma_hash_of_push(self.users@, rec, u);
            }
        }
        let ghost before = *self;
        self.users.push(rec);
        assert(self@ =~= before@.insert(rec.username@, rec.pw_hash@));
        true
    }

    /// The password hash stored for `username`.
    pub fn find_hash(&self, username: &String) -> (r: Option<String>)
        ensures
            self@.contains_key(username@) ==> (r matches Some(h) && h@ == self@[username@]),
            !self@.contains_key(username@) ==> r is None,
    {
        let n = self.users.len();
        let mut i: usize = 0;
        assert(self.users@.subrange(0, n as int) =~= self.users@);
        while i < n
            invariant
                n == self.users@.len(),
                i <= n,
                hash_of(self.users@, username@) == hash_of(
                    self.users@.subrange(i as int, n as int),
                    username@,
                ),
            decreases n - i,
        {
            if self.users[i].username == *username {
                return Some(self.users[i].pw_hash.clone());
            }
            assert(self.users@.subrange(i as int, n as int).drop_first() =~= self.users@.subrange(
                i as int + 1,
                n as int,
            ));
            i = i + 1;
        }
        None
    }
}

/// The auth gate on decoded credentials: split, look the user up, check the
/// password.
pub fn basic_auth(store: &UserStore, header: Option<String>) -> (r: Result<String, ApiError>)
    ensures
        result_view(r) == auth_outcome(store@, opt_view(header)),
{
    let (username, password) = match auth_request(header) {
        Err(e) => return Err(e),
        Ok(c) => c,
    };
    let found = store.find_hash(&username);
    let check = match after_lookup(username, password, Ok(found)) {
        Err(e) => return Err(e),
        Ok(c) => c,
    };
    let matched = check_password(check.password.as_str(), check.pw_hash.as_str());
    after_verify(check.username, Some(matched))
}

/// The auth gate on a raw `Authorization` header.
pub fn auth_gate(store: &UserStore, raw: Option<String>) -> (r: Result<String, ApiError>)
    ensures
        result_view(r) == auth_outcome(store@, decoded_header(opt_view(raw))),
{
    basic_auth(store, decode_auth_header(raw))
}

/// A user name without a colon, sent with a password, is accepted exactly
/// when the store holds that user with a hash that the password matches; an
/// unknown user and a wrong password are both `Unauthorized`, never another
/// error.
pub proof fn lemma_auth_outcome_of_credentials(
    users: Map<Seq<char>, Seq<char>>,
    username: Seq<char>,
    password: Seq<char>,
)
    requires
        !has_colon(username),
    ensures
        auth_outcome(users, Some(username + seq![':'] + password)) == (if users.contains_key(
            username,
        ) && password_matches(password, users[username]) {
            Ok::<Seq<char>, ApiError>(username)
        } else {
            Err::<Seq<char>, ApiError>(ApiError::Unauthorized)
        }),
{
    lemma_credentials_split(username, password);
}

/// An absent or undecodable header, and credentials without a colon, are
/// refused with `AuthHeaderDecode`, never with `Unauthorized`.
pub proof fn lemma_auth_rejects_malformed_header(
    users: Map<Seq<char>, Seq<char>>,
    raw: Option<Seq<char>>,
)
    requires
        decoded_header(raw) is None || !has_colon(decoded_header(raw)->0),
    ensures
        auth_outcome(users, decoded_header(raw)) == Err::<Seq<char>, ApiError>(
            ApiError::AuthHeaderDecode,
        ),
{
    if decoded_header(raw) is Some {
        lemma_credentials_none(decoded_header(raw)->0);
    }
}

} // verus!
