use actix_web::http::StatusCode;
use statusphere::error_handler::AppError;

#[test]
fn test_error_display() {
    let err = AppError::ValidationError("Invalid input".to_string());
    assert_eq!(err.to_string(), "Validation error: Invalid input");

    let err = AppError::RateLimitExceeded;
    assert_eq!(err.to_string(), "Rate limit exceeded");
}

#[test]
fn test_error_status_codes() {
    assert_eq!(
        AppError::InternalError("test".to_string()).status_code(),
        StatusCode::INTERNAL_SERVER_ERROR.as_u16()
    );
    assert_eq!(
        AppError::ValidationError("test".to_string()).status_code(),
        StatusCode::BAD_REQUEST.as_u16()
    );
    assert_eq!(
        AppError::AuthenticationError("test".to_string()).status_code(),
        StatusCode::UNAUTHORIZED.as_u16()
    );
    assert_eq!(
        AppError::NotFound("test".to_string()).status_code(),
        StatusCode::NOT_FOUND.as_u16()
    );
    assert_eq!(
        AppError::RateLimitExceeded.status_code(),
        StatusCode::TOO_MANY_REQUESTS.as_u16()
    );
}

#[test]
fn test_error_handling() {
    // Test that our error types return correct status codes
    let err = AppError::ValidationError("test".to_string());
    assert_eq!(err.status_code(), StatusCode::BAD_REQUEST.as_u16());

    let err = AppError::RateLimitExceeded;
    assert_eq!(err.status_code(), StatusCode::TOO_MANY_REQUESTS.as_u16());

    let err = AppError::AuthenticationError("test".to_string());
    assert_eq!(err.status_code(), StatusCode::UNAUTHORIZED.as_u16());
}

#[test]
fn every_variant_has_its_wording() {
    assert_eq!(AppError::InternalError("x".into()).to_string(), "Internal server error: x");
    assert_eq!(AppError::DatabaseError("x".into()).to_string(), "Database error: x");
    assert_eq!(AppError::AuthenticationError("x".into()).to_string(), "Authentication error: x");
    assert_eq!(AppError::NotFound("x".into()).to_string(), "Not found: x");
    assert_eq!(AppError::ValidationError("".into()).to_string(), "Validation error: ");
}

#[test]
fn database_errors_answer_with_500() {
    assert_eq!(AppError::DatabaseError("locked".into()).status_code(), 500);
}

#[test]
fn error_body_names_code_and_message() {
    assert_eq!(AppError::NotFound("no such page".into()).error_body(), "Error 404: no such page");
    assert_eq!(AppError::InternalError("boom".into()).error_body(), "Error 500: boom");
    assert_eq!(AppError::ValidationError("bad".into()).error_body(), "Error 400: bad");
    assert_eq!(AppError::AuthenticationError("who".into()).error_body(), "Error 401: who");
    assert_eq!(
        AppError::RateLimitExceeded.error_body(),
        "Error 429: Rate limit exceeded. Please try again later."
    );
}

#[test]
fn error_body_keeps_database_causes_private() {
    assert_eq!(
        AppError::DatabaseError("table status is locked".into()).error_body(),
        "Error 500: Database error occurred"
    );
}
