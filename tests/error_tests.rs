use job_tracker::db::DbError;
use job_tracker::error::{AppError, Validate, ValidationError};

#[test]
fn test_error_conversion() {
    let db_error = DbError::NotFound(1);
    let app_error: AppError = db_error.into();
    assert!(matches!(app_error, AppError::Database(_)));

    let io_error = std::io::Error::new(std::io::ErrorKind::NotFound, "File not found");
    let app_error: AppError = io_error.into();
    assert!(matches!(app_error, AppError::FileSystem(_)));
}

#[test]
fn test_validation_error() {
    let validation_error = ValidationError::new("email", "Invalid email format");
    assert_eq!(validation_error.field(), "email");
    assert_eq!(validation_error.message(), "Invalid email format");

    let app_error = validation_error.into_app_error();
    match app_error {
        AppError::Validation(text) => assert!(text.contains("email: Invalid email format")),
        other => panic!("unexpected error: {other:?}"),
    }
}

struct TestStruct {
    value: i32,
}

impl Validate for TestStruct {
    fn validate(&self) -> Vec<ValidationError> {
        let mut errors = Vec::new();
        if self.value < 0 {
            errors.push(ValidationError::new("value", "Must be non-negative"));
        }
        errors
    }
}

#[test]
fn test_validate_trait() {
    let valid_struct = TestStruct { value: 5 };
    assert!(valid_struct.is_valid());
    assert!(valid_struct.validate().is_empty());

    let invalid_struct = TestStruct { value: -1 };
    assert!(!invalid_struct.is_valid());
    assert_eq!(invalid_struct.validate().len(), 1);
}

#[test]
fn validation_message_is_exact() {
    match ValidationError::new("salary", "Must be a number").into_app_error() {
        AppError::Validation(text) => assert_eq!(text, "salary: Must be a number"),
        other => panic!("unexpected error: {other:?}"),
    }
}
