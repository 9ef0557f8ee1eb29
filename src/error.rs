use vstd::prelude::*;

verus! {

/// The errors that a request can end in.
#[derive(Debug, PartialEq, Eq)]
pub enum ApiError {
    Unauthorized,
    AuthHeaderDecode,
    /// The password check never replied.
    VerificationUnavailable,
    PathAlreadyExists(String),
    /// A failure of the store, with its message.
    DbError(String),
    NotFound,
    InvalidUri(String),
}

/// The status line text of an HTTP status code, as the `http` crate writes it.
pub uninterp spec fn status_line(code: u16) -> Seq<char>;

/// Relies on `http::StatusCode::from_u16`, which accepts 100 to 999, and on its
/// `Display`, which writes the code and its canonical reason.
#[verifier::external_body]
fn status_text(code: u16) -> (r: String)
    requires
        100 <= code <= 999,
    ensures
        r@ == status_line(code),
{
    match warp::http::StatusCode::from_u16(code) {
        Ok(c) => c.to_string(),
        Err(_) => String::new(),
    }
}

/// The status code that an error is answered with.
pub open spec fn status_of(e: ApiError) -> u16 {
    match e {
        ApiError::Unauthorized => 401,
        ApiError::AuthHeaderDecode => 400,
        ApiError::NotFound => 404,
        ApiError::PathAlreadyExists(_) => 409,
        ApiError::InvalidUri(_) => 400,
        ApiError::VerificationUnavailable => 500,
        ApiError::DbError(_) => 500,
    }
}

/// The human-readable message of an error.
pub open spec fn message_of(e: ApiError) -> Seq<char> {
    match e {
        ApiError::Unauthorized => "unauthorized"@,
        ApiError::AuthHeaderDecode => "failed to decode auth header"@,
        ApiError::NotFound => "not found"@,
        ApiError::PathAlreadyExists(p) => "path "@ + p@ + " already exists"@,
        ApiError::InvalidUri(u) => "invalid uri "@ + u@,
        ApiError::VerificationUnavailable => "failed to receive password check result"@,
        ApiError::DbError(m) => m@,
    }
}

/// The message of an error response: the error's own in a debug build, the
/// status line alone otherwise.
pub open spec fn body_text(e: ApiError, debug: bool) -> Seq<char> {
    if debug {
        message_of(e)
    } else {
        status_line(status_of(e))
    }
}

impl ApiError {
    pub fn status_code(&self) -> (r: u16)
        ensures
            r == status_of(*self),
    {
        match self {
            ApiError::Unauthorized => 401,
            ApiError::AuthHeaderDecode => 400,
            ApiError::NotFound => 404,
            ApiError::PathAlreadyExists(_) => 409,
            ApiError::InvalidUri(_) => 400,
            ApiError::VerificationUnavailable => 500,
            ApiError::DbError(_) => 500,
        }
    }

    /// The human-readable message of the error.
    pub fn message(&self) -> (r: String)
        ensures
            r@ == message_of(*self),
    {
        match self {
            ApiError::Unauthorized => String::from_str("unauthorized"),
            ApiError::AuthHeaderDecode => String::from_str("failed to decode auth header"),
            ApiError::NotFound => String::from_str("not found"),
            ApiError::PathAlreadyExists(p) => {
                let mut s = String::from_str("path ");
                s.append(p.as_str());
                s.append(" already exists");
                s
            },
            ApiError::InvalidUri(u) => {
                let mut s = String::from_str("invalid uri ");
                s.append(u.as_str());
                s
            },
            ApiError::VerificationUnavailable => String::from_str(
                "failed to receive password check result",
            ),
            ApiError::DbError(m) => m.clone(),
        }
    }
}

/// The body of an error response.
#[derive(Debug)]
pub struct ApiErrorMessage {
    pub status_code: u16,
    pub message: String,
}

impl ApiErrorMessage {
    /// The response body for `error`: its message in a debug build, the status
    /// line alone otherwise.
    pub fn from_error(error: &ApiError, debug: bool) -> (r: ApiErrorMessage)
        ensures
            r.status_code == status_of(*error),
            r.message@ == body_text(*error, debug),
    {
        let code = error.status_code();
        let message = if debug {
            error.message()
        } else {
            status_text(code)
        };
        ApiErrorMessage { status_code: code, message }
    }
}

/// A response to a rejected request: a status and, for most errors, a body.
#[derive(Debug)]
pub struct Rejected {
    pub status: u16,
    pub body: Option<ApiErrorMessage>,
}

/// Maps a rejection to its response. `None` stands for a rejection that is
/// not one of this library's errors; it and `NotFound` get an empty 404.
pub fn handle_rejection(error: Option<&ApiError>, debug: bool) -> (r: Rejected)
    ensures
        match error {
            None => r.status == 404 && r.body is None,
            Some(e) => match *e {
                ApiError::NotFound => r.status == 404 && r.body is None,
                _ => {
                    &&& r.status == status_of(*e)
                    &&& r.body is Some
                    &&& r.body->0.status_code == status_of(*e)
                    &&& r.body->0.message@ == body_text(*e, debug)
                },
            },
        },
{
    match error {
        None => Rejected { status: 404, body: None },
        Some(ApiError::NotFound) => Rejected { status: 404, body: None },
        Some(e) => {
            let body = ApiErrorMessage::from_error(e, debug);
            Rejected { status: body.status_code, body: Some(body) }
        },
    }
}

} // verus!
