//! The closed error kinds of the service, one enum per domain, and what each
//! one answers with: a status code and a JSON body.

use vstd::prelude::*;
use vstd::std_specs::convert::FromSpecImpl;

verus! {

/// Failures of the note operations: upload, listing, voting.
#[derive(Clone, Debug, PartialEq, Eq)]
pub enum NoteError {
    /// The client sent something it can correct.
    InvalidData(String),
    /// The file system or the store failed after a side effect was attempted.
    UploadFailed(String),
    /// The store could not be reached or refused; the second text is its report.
    DatabaseError(String, String),
    /// The vote token is none of the accepted ones.
    BadVote(String),
}

/// Failures around user records; the second text is the store's report.
#[derive(Clone, Debug, PartialEq, Eq)]
pub enum UserError {
    Conflict(String, String),
    Unknown(String, String),
}

/// Failures of sign-in and of session checks.
#[derive(Clone, Debug, PartialEq, Eq)]
pub enum AuthError {
    RequestError(String, String),
    BadResponse(String),
    ConfigError(String),
    InvalidToken(String),
    DatabaseError(String, String),
}

/// Any failure that a request can end in.
#[derive(Clone, Debug, PartialEq, Eq)]
pub enum AppError {
    Note(NoteError),
    User(UserError),
    Auth(AuthError),
}

/// A `NoteError` with its texts as sequences of characters.
pub enum NoteErrorView {
    InvalidData(Seq<char>),
    UploadFailed(Seq<char>),
    DatabaseError(Seq<char>, Seq<char>),
    BadVote(Seq<char>),
}

/// A `UserError` with its texts as sequences of characters.
pub enum UserErrorView {
    Conflict(Seq<char>, Seq<char>),
    Unknown(Seq<char>, Seq<char>),
}

/// An `AuthError` with its texts as sequences of characters.
pub enum AuthErrorView {
    RequestError(Seq<char>, Seq<char>),
    BadResponse(Seq<char>),
    ConfigError(Seq<char>),
    InvalidToken(Seq<char>),
    DatabaseError(Seq<char>, Seq<char>),
}

/// An `AppError` with its texts as sequences of characters.
pub enum AppErrorView {
    Note(NoteErrorView),
    User(UserErrorView),
    Auth(AuthErrorView),
}

/// The kinds of failure that a caller can tell apart.
#[derive(Clone, Copy, Debug, PartialEq, Eq)]
pub enum ErrorKind {
    /// The client sent something it can correct. Nothing was changed.
    InvalidInput,
    /// The request ran into a record that is already there.
    Conflict,
    /// The store, the file system or another service failed.
    TransientInfra,
}

/// The kind of failure that a status code tells of.
pub open spec fn kind_of_status(status: u16) -> ErrorKind {
    if status == STATUS_CONFLICT {
        ErrorKind::Conflict
    } else if status < STATUS_INTERNAL_SERVER_ERROR {
        ErrorKind::InvalidInput
    } else {
        ErrorKind::TransientInfra
    }
}

/// What the transport layer sends for a failure.
#[derive(Clone, Debug, PartialEq, Eq)]
pub struct ErrorResponse {
    pub status: u16,
    pub body: String,
}

/// The status of a request that the client can correct.
pub const STATUS_BAD_REQUEST: u16 = 400;

/// The status of a request without a valid session.
pub const STATUS_UNAUTHORIZED: u16 = 401;

/// The status of a request that runs into a record already there.
pub const STATUS_CONFLICT: u16 = 409;

/// The status of a request that the server failed on.
pub const STATUS_INTERNAL_SERVER_ERROR: u16 = 500;

/// The JSON object that carries an error message. The message is placed
/// between the quotes as it is.
pub open spec fn error_body_text(message: Seq<char>) -> Seq<char> {
    "{\"error\": \""@ + message + "\"}"@
}

/// Builds the body of an error response.
pub fn error_body(message: &str) -> (body: String)
    ensures
        body@ == error_body_text(message@),
{
    let mut body = String::from_str("{\"error\": \"");
    body.append(message);
    body.append("\"}");
    body
}

impl View for NoteError {
    type V = NoteErrorView;

    open spec fn view(&self) -> NoteErrorView {
        match self {
            NoteError::InvalidData(m) => NoteErrorView::InvalidData(m@),
            NoteError::UploadFailed(m) => NoteErrorView::UploadFailed(m@),
            NoteError::DatabaseError(m, d) => NoteErrorView::DatabaseError(m@, d@),
            NoteError::BadVote(m) => NoteErrorView::BadVote(m@),
        }
    }
}

impl View for UserError {
    type V = UserErrorView;

    open spec fn view(&self) -> UserErrorView {
        match self {
            UserError::Conflict(m, d) => UserErrorView::Conflict(m@, d@),
            UserError::Unknown(m, d) => UserErrorView::Unknown(m@, d@),
        }
    }
}

impl View for AuthError {
    type V = AuthErrorView;

    open spec fn view(&self) -> AuthErrorView {
        match self {
            AuthError::RequestError(m, d) => AuthErrorView::RequestError(m@, d@),
            AuthError::BadResponse(m) => AuthErrorView::BadResponse(m@),
            AuthError::ConfigError(m) => AuthErrorView::ConfigError(m@),
            AuthError::InvalidToken(m) => AuthErrorView::InvalidToken(m@),
            AuthError::DatabaseError(m, d) => AuthErrorView::DatabaseError(m@, d@),
        }
    }
}

impl View for AppError {
    type V = AppErrorView;

    open spec fn view(&self) -> AppErrorView {
        match self {
            AppError::Note(e) => AppErrorView::Note(e@),
            AppError::User(e) => AppErrorView::User(e@),
            AppError::Auth(e) => AppErrorView::Auth(e@),
        }
    }
}

impl NoteErrorView {
    /// The status code that the error answers with.
    pub open spec fn status(self) -> u16 {
        match self {
            NoteErrorView::InvalidData(_) => STATUS_BAD_REQUEST,
            NoteErrorView::UploadFailed(_) => STATUS_INTERNAL_SERVER_ERROR,
            NoteErrorView::DatabaseError(_, _) => STATUS_INTERNAL_SERVER_ERROR,
            NoteErrorView::BadVote(_) => STATUS_BAD_REQUEST,
        }
    }

    /// The message shown to the client.
    pub open spec fn message(self) -> Seq<char> {
        match self {
            NoteErrorView::InvalidData(m) => m,
            NoteErrorView::UploadFailed(m) => m,
            NoteErrorView::DatabaseError(m, _) => m,
            NoteErrorView::BadVote(m) => m,
        }
    }
}

impl UserErrorView {
    /// The status code that the error answers with.
    pub open spec fn status(self) -> u16 {
        match self {
            UserErrorView::Conflict(_, _) => STATUS_CONFLICT,
            UserErrorView::Unknown(_, _) => STATUS_INTERNAL_SERVER_ERROR,
        }
    }

    /// The message shown to the client.
    pub open spec fn message(self) -> Seq<char> {
        match self {
            UserErrorView::Conflict(m, _) => m,
            UserErrorView::Unknown(m, _) => m,
        }
    }
}

impl AuthErrorView {
    /// The status code that the error answers with.
    pub open spec fn status(self) -> u16 {
        match self {
            AuthErrorView::RequestError(_, _) => STATUS_INTERNAL_SERVER_ERROR,
            AuthErrorView::BadResponse(_) => STATUS_BAD_REQUEST,
            AuthErrorView::ConfigError(_) => STATUS_INTERNAL_SERVER_ERROR,
            AuthErrorView::InvalidToken(_) => STATUS_UNAUTHORIZED,
            AuthErrorView::DatabaseError(_, _) => STATUS_INTERNAL_SERVER_ERROR,
        }
    }

    /// The message shown to the client.
    pub open spec fn message(self) -> Seq<char> {
        match self {
            AuthErrorView::RequestError(m, _) => m,
            AuthErrorView::BadResponse(m) => m,
            AuthErrorView::ConfigError(m) => m,
            AuthErrorView::InvalidToken(m) => m,
            AuthErrorView::DatabaseError(m, _) => m,
        }
    }
}

impl AppErrorView {
    /// The status code of the error inside.
    pub open spec fn status(self) -> u16 {
        match self {
            AppErrorView::Note(e) => e.status(),
            AppErrorView::User(e) => e.status(),
            AppErrorView::Auth(e) => e.status(),
        }
    }

    /// The message of the error inside.
    pub open spec fn message(self) -> Seq<char> {
        match self {
            AppErrorView::Note(e) => e.message(),
            AppErrorView::User(e) => e.message(),
            AppErrorView::Auth(e) => e.message(),
        }
    }
}

impl NoteError {
    /// The kind of this failure: bad data and bad votes are the client's to
    /// correct, the rest is the server's.
    pub fn kind(&self) -> (k: ErrorKind)
        ensures
            k == kind_of_status(self@.status()),
            k == match self {
                NoteError::InvalidData(_) | NoteError::BadVote(_) => ErrorKind::InvalidInput,
                NoteError::UploadFailed(_) | NoteError::DatabaseError(_, _) => ErrorKind::TransientInfra,
            },
    {
        match self {
            NoteError::InvalidData(_) | NoteError::BadVote(_) => ErrorKind::InvalidInput,
            NoteError::UploadFailed(_) | NoteError::DatabaseError(_, _) => ErrorKind::TransientInfra,
        }
    }

    /// The response for this error: its status, and its message in a JSON body.
    pub fn into_response(self) -> (r: ErrorResponse)
        ensures
            r.status == self@.status(),
            r.body@ == error_body_text(self@.message()),
    {
        let (status, message) = match self {
            NoteError::InvalidData(msg) => (STATUS_BAD_REQUEST, msg),
            NoteError::UploadFailed(msg) => (STATUS_INTERNAL_SERVER_ERROR, msg),
            NoteError::DatabaseError(msg, _) => (STATUS_INTERNAL_SERVER_ERROR, msg),
            NoteError::BadVote(msg) => (STATUS_BAD_REQUEST, msg),
        };
        ErrorResponse { status, body: error_body(message.as_str()) }
    }
}

impl UserError {
    /// The kind of this failure.
    pub fn kind(&self) -> (k: ErrorKind)
        ensures
            k == kind_of_status(self@.status()),
            k == match self {
                UserError::Conflict(_, _) => ErrorKind::Conflict,
                UserError::Unknown(_, _) => ErrorKind::TransientInfra,
            },
    {
        match self {
            UserError::Conflict(_, _) => ErrorKind::Conflict,
            UserError::Unknown(_, _) => ErrorKind::TransientInfra,
        }
    }

    /// The response for this error: its status, and its message in a JSON body.
    pub fn into_response(self) -> (r: ErrorResponse)
        ensures
            r.status == self@.status(),
            r.body@ == error_body_text(self@.message()),
    {
        let (status, message) = match self {
            UserError::Conflict(msg, _) => (STATUS_CONFLICT, msg),
            UserError::Unknown(msg, _) => (STATUS_INTERNAL_SERVER_ERROR, msg),
        };
        ErrorResponse { status, body: error_body(message.as_str()) }
    }
}

impl AuthError {
    /// The kind of this failure: a bad token or a bad answer of the
    /// provider is for the client to correct, the rest is the server's.
    pub fn kind(&self) -> (k: ErrorKind)
        ensures
            k == kind_of_status(self@.status()),
            k == match self {
                AuthError::BadResponse(_) | AuthError::InvalidToken(_) => ErrorKind::InvalidInput,
                AuthError::RequestError(_, _)
                | AuthError::ConfigError(_)
                | AuthError::DatabaseError(_, _) => ErrorKind::TransientInfra,
            },
    {
        match self {
            AuthError::BadResponse(_) | AuthError::InvalidToken(_) => ErrorKind::InvalidInput,
            AuthError::RequestError(_, _)
            | AuthError::ConfigError(_)
            | AuthError::DatabaseError(_, _) => ErrorKind::TransientInfra,
        }
    }

    /// The response for this error: its status, and its message in a JSON body.
    pub fn into_response(self) -> (r: ErrorResponse)
        ensures
            r.status == self@.status(),
            r.body@ == error_body_text(self@.message()),
    {
        let (status, message) = match self {
            AuthError::RequestError(msg, _) => (STATUS_INTERNAL_SERVER_ERROR, msg),
            AuthError::BadResponse(msg) => (STATUS_BAD_REQUEST, msg),
            AuthError::ConfigError(msg) => (STATUS_INTERNAL_SERVER_ERROR, msg),
            AuthError::InvalidToken(msg) => (STATUS_UNAUTHORIZED, msg),
            AuthError::DatabaseError(msg, _) => (STATUS_INTERNAL_SERVER_ERROR, msg),
        };
        ErrorResponse { status, body: error_body(message.as_str()) }
    }
}

impl AppError {
    /// The kind of the failure inside.
    pub fn kind(&self) -> (k: ErrorKind)
        ensures
            k == kind_of_status(self@.status()),
    {
        match self {
            AppError::Note(err) => err.kind(),
            AppError::User(err) => err.kind(),
            AppError::Auth(err) => err.kind(),
        }
    }

    /// The response of the error inside.
    pub fn into_response(self) -> (r: ErrorResponse)
        ensures
            r.status == self@.status(),
            r.body@ == error_body_text(self@.message()),
    {
        match self {
            AppError::Note(err) => err.into_response(),
            AppError::User(err) => err.into_response(),
            AppError::Auth(err) => err.into_response(),
        }
    }
}

impl From<NoteError> for AppError {
    fn from(err: NoteError) -> (r: AppError) {
        AppError::Note(err)
    }
}

impl FromSpecImpl<NoteError> for AppError {
    open spec fn obeys_from_spec() -> bool {
        true
    }

    open spec fn from_spec(err: NoteError) -> AppError {
        AppError::Note(err)
    }
}

impl From<UserError> for AppError {
    fn from(err: UserError) -> (r: AppError) {
        AppError::User(err)
    }
}

impl FromSpecImpl<UserError> for AppError {
    open spec fn obeys_from_spec() -> bool {
        true
    }

    open spec fn from_spec(err: UserError) -> AppError {
        AppError::User(err)
    }
}

impl From<AuthError> for AppError {
    fn from(err: AuthError) -> (r: AppError) {
        AppError::Auth(err)
    }
}

impl FromSpecImpl<AuthError> for AppError {
    open spec fn obeys_from_spec() -> bool {
        true
    }

    open spec fn from_spec(err: AuthError) -> AppError {
        AppError::Auth(err)
    }
}

} // verus!
