//! The application's error type and field validation errors.
use vstd::prelude::*;
use crate::db::DbError;

verus! {

#[verifier::external_type_specification]
#[verifier::external_body]
pub struct ExIoError(std::io::Error);

/// Every error of the application.
#[derive(Debug)]
pub enum AppError {
    /// An error of the store.
    Database(DbError),
    /// Input that failed validation, with its message.
    Validation(String),
    /// A file system operation failed.
    FileSystem(std::io::Error),
    /// Missing or wrong configuration.
    Configuration(String),
    /// The user interface failed.
    UserInterface(String),
}

pub type AppResult<T> = Result<T, AppError>;

impl From<DbError> for AppError {
    fn from(err: DbError) -> (r: AppError)
        ensures
            r == AppError::Database(err),
    {
        AppError::Database(err)
    }
}

impl vstd::std_specs::convert::FromSpecImpl<DbError> for AppError {
    open spec fn obeys_from_spec() -> bool {
        true
    }

    open spec fn from_spec(err: DbError) -> AppError {
        AppError::Database(err)
    }
}

impl From<std::io::Error> for AppError {
    fn from(err: std::io::Error) -> (r: AppError)
        ensures
            r == AppError::FileSystem(err),
    {
        AppError::FileSystem(err)
    }
}

impl vstd::std_specs::convert::FromSpecImpl<std::io::Error> for AppError {
    open spec fn obeys_from_spec() -> bool {
        true
    }

    open spec fn from_spec(err: std::io::Error) -> AppError {
        AppError::FileSystem(err)
    }
}

impl From<sqlx::Error> for AppError {
    fn from(err: sqlx::Error) -> (r: AppError)
        ensures
            r == AppError::Database(DbError::Connection(err)),
    {
        AppError::Database(DbError::Connection(err))
    }
}

impl vstd::std_specs::convert::FromSpecImpl<sqlx::Error> for AppError {
    open spec fn obeys_from_spec() -> bool {
        true
    }

    open spec fn from_spec(err: sqlx::Error) -> AppError {
        AppError::Database(DbError::Connection(err))
    }
}

/// A field that failed validation, and why.
pub struct ValidationError {
    field: String,
    message: String,
}

impl View for ValidationError {
    type V = (Seq<char>, Seq<char>);

    closed spec fn view(&self) -> (Seq<char>, Seq<char>) {
        (self.field@, self.message@)
    }
}

impl ValidationError {
    pub fn new(field: &str, message: &str) -> (r: Self)
        ensures
            r@ == (field@, message@),
    {
        ValidationError { field: String::from_str(field), message: String::from_str(message) }
    }

    /// The name of the field.
    pub fn field(&self) -> (r: &str)
        ensures
            r@ == self@.0,
    {
        self.field.as_str()
    }

    /// Why the field failed.
    pub fn message(&self) -> (r: &str)
        ensures
            r@ == self@.1,
    {
        self.message.as_str()
    }

    /// The validation error as an application error, with the message
    /// `"<field>: <message>"`.
    pub fn into_app_error(self) -> (r: AppError)
        ensures
            r is Validation,
            r->Validation_0@ == self@.0 + ": "@ + self@.1,
    {
        let mut text = self.field;
        text.append(": ");
        text.append(self.message.as_str());
        AppError::Validation(text)
    }
}

/// Values that can check themselves.
pub trait Validate {
    /// The validation errors of the value; none when it is valid.
    fn validate(&self) -> Vec<ValidationError>;

    /// Whether `validate` finds no error.
    fn is_valid(&self) -> bool {
        self.validate().len() == 0
    }
}

} // verus!
