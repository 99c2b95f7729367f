use web_service::error::{map_db_error, return_error, status_for_error, DbFailure, Error, Rejected};
use web_service::number::{parse_i32, ParseIntError};

#[test]
fn status_for_error_maps_variants() {
    let parse_err = parse_i32("x").unwrap_err();
    assert_eq!(status_for_error(&Error::ParseError(parse_err)), 400);
    assert_eq!(status_for_error(&Error::MissingParameters), 400);
    assert_eq!(status_for_error(&Error::ValidationError("bad".into())), 400);
    assert_eq!(status_for_error(&Error::Unauthorized), 401);
    assert_eq!(status_for_error(&Error::NotFound), 404);
    assert_eq!(status_for_error(&Error::DatabaseQueryError), 422);
    assert_eq!(status_for_error(&Error::InternalServerError), 500);
}

#[test]
fn status_of_access_errors() {
    assert_eq!(status_for_error(&Error::Forbidden), 403);
    assert_eq!(status_for_error(&Error::Conflict("taken".into())), 409);
    assert_eq!(status_for_error(&Error::TooManyRequests), 429);
}

#[test]
fn return_error_uses_mapped_status_and_body() {
    let (status, body) = return_error(&Rejected::App(Error::NotFound));
    assert_eq!(status, 404);
    assert_eq!(body, "Not found");
}

#[test]
fn return_error_unknown_rejection_is_not_found() {
    let (status, body) = return_error(&Rejected::Unmatched);
    assert_eq!(status, 404);
    assert_eq!(body, "Route not found");
}

#[test]
fn return_error_for_cors_and_bad_bodies() {
    let (status, body) = return_error(&Rejected::CorsForbidden("origin not allowed".into()));
    assert_eq!(status, 403);
    assert_eq!(body, "origin not allowed");
    let (status, body) = return_error(&Rejected::BodyDeserialize("missing field `title`".into()));
    assert_eq!(status, 422);
    assert_eq!(body, "missing field `title`");
}

#[test]
fn error_messages() {
    assert_eq!(
        Error::ParseError(ParseIntError::InvalidDigit).to_string(),
        "Cannot parse parameter: invalid digit found in string"
    );
    assert_eq!(Error::MissingParameters.to_string(), "Missing parameter");
    assert_eq!(Error::ValidationError("bad".into()).to_string(), "bad");
    assert_eq!(Error::Unauthorized.to_string(), "Unauthorized");
    assert_eq!(Error::DatabaseQueryError.to_string(), "Cannot update, invalid data.");
    assert_eq!(Error::InternalServerError.to_string(), "Internal server error");
    let (status, body) = return_error(&Rejected::App(Error::ParseError(ParseIntError::Empty)));
    assert_eq!(status, 400);
    assert_eq!(body, "Cannot parse parameter: cannot parse integer from empty string");
}

#[test]
fn database_failures() {
    assert!(matches!(map_db_error(DbFailure::RowNotFound), Error::NotFound));
    match map_db_error(DbFailure::Database { constraint: Some("users_username_key".into()) }) {
        Error::Conflict(m) => assert_eq!(m, "username already taken"),
        other => panic!("unexpected {other:?}"),
    }
    assert!(matches!(
        map_db_error(DbFailure::Database { constraint: Some("answers_question_id_fkey".into()) }),
        Error::DatabaseQueryError
    ));
    assert!(matches!(
        map_db_error(DbFailure::Database { constraint: None }),
        Error::DatabaseQueryError
    ));
    assert!(matches!(map_db_error(DbFailure::Other), Error::DatabaseQueryError));
}
