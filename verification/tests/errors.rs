use notes_core::errors::{
    error_body, AppError, AuthError, ErrorKind, ErrorResponse, NoteError, UserError,
};

#[test]
fn error_body_wraps_the_message() {
    assert_eq!(error_body("File not provided"), "{\"error\": \"File not provided\"}");
    assert_eq!(error_body(""), "{\"error\": \"\"}");
    assert_eq!(error_body("a \"b\""), "{\"error\": \"a \"b\"\"}");
}

#[test]
fn note_errors_answer_with_their_status() {
    let s = |t: &str| t.to_string();
    assert_eq!(
        NoteError::InvalidData(s("bad")).into_response(),
        ErrorResponse { status: 400, body: s("{\"error\": \"bad\"}") }
    );
    assert_eq!(NoteError::UploadFailed(s("x")).into_response().status, 500);
    assert_eq!(
        NoteError::DatabaseError(s("Failed to fetch notes"), s("connection reset")).into_response(),
        ErrorResponse { status: 500, body: s("{\"error\": \"Failed to fetch notes\"}") }
    );
    assert_eq!(NoteError::BadVote(s("x")).into_response().status, 400);
}

#[test]
fn user_errors_answer_with_their_status() {
    let s = |t: &str| t.to_string();
    assert_eq!(
        UserError::Conflict(s("taken"), s("dup key")).into_response(),
        ErrorResponse { status: 409, body: s("{\"error\": \"taken\"}") }
    );
    assert_eq!(
        UserError::Unknown(s("oops"), s("io")).into_response(),
        ErrorResponse { status: 500, body: s("{\"error\": \"oops\"}") }
    );
}

#[test]
fn auth_errors_answer_with_their_status() {
    let s = |t: &str| t.to_string();
    assert_eq!(AuthError::RequestError(s("a"), s("d")).into_response().status, 500);
    assert_eq!(AuthError::BadResponse(s("a")).into_response().status, 400);
    assert_eq!(AuthError::ConfigError(s("a")).into_response().status, 500);
    assert_eq!(
        AuthError::InvalidToken(s("Invalid or expired session token")).into_response(),
        ErrorResponse { status: 401, body: s("{\"error\": \"Invalid or expired session token\"}") }
    );
    assert_eq!(AuthError::DatabaseError(s("a"), s("d")).into_response().status, 500);
}

#[test]
fn app_errors_answer_as_the_error_inside() {
    let s = |t: &str| t.to_string();
    let note: AppError = NoteError::BadVote(s("v")).into();
    assert_eq!(note, AppError::Note(NoteError::BadVote(s("v"))));
    assert_eq!(note.into_response(), ErrorResponse { status: 400, body: s("{\"error\": \"v\"}") });
    let user = AppError::from(UserError::Conflict(s("c"), s("d")));
    assert_eq!(user, AppError::User(UserError::Conflict(s("c"), s("d"))));
    assert_eq!(user.into_response().status, 409);
    let auth = AppError::from(AuthError::InvalidToken(s("t")));
    assert_eq!(auth, AppError::Auth(AuthError::InvalidToken(s("t"))));
    assert_eq!(auth.into_response().status, 401);
}

#[test]
fn failures_are_of_three_kinds() {
    let s = |t: &str| t.to_string();
    assert_eq!(NoteError::InvalidData(s("m")).kind(), ErrorKind::InvalidInput);
    assert_eq!(NoteError::BadVote(s("m")).kind(), ErrorKind::InvalidInput);
    assert_eq!(NoteError::UploadFailed(s("m")).kind(), ErrorKind::TransientInfra);
    assert_eq!(NoteError::DatabaseError(s("m"), s("d")).kind(), ErrorKind::TransientInfra);
    assert_eq!(UserError::Conflict(s("m"), s("d")).kind(), ErrorKind::Conflict);
    assert_eq!(UserError::Unknown(s("m"), s("d")).kind(), ErrorKind::TransientInfra);
    assert_eq!(AuthError::InvalidToken(s("m")).kind(), ErrorKind::InvalidInput);
    assert_eq!(AuthError::BadResponse(s("m")).kind(), ErrorKind::InvalidInput);
    assert_eq!(AuthError::RequestError(s("m"), s("d")).kind(), ErrorKind::TransientInfra);
    assert_eq!(AuthError::ConfigError(s("m")).kind(), ErrorKind::TransientInfra);
    assert_eq!(AuthError::DatabaseError(s("m"), s("d")).kind(), ErrorKind::TransientInfra);
    assert_eq!(AppError::User(UserError::Conflict(s("m"), s("d"))).kind(), ErrorKind::Conflict);
    assert_eq!(AppError::Note(NoteError::BadVote(s("m"))).kind(), ErrorKind::InvalidInput);
    assert_eq!(AppError::Auth(AuthError::ConfigError(s("m"))).kind(), ErrorKind::TransientInfra);
}
