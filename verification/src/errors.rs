//! Failure taxonomy of the service around the index core. Absence inside
//! the index itself is never an error; these variants classify the
//! conditions the surrounding service reports, each carrying its context
//! message. The HTTP-transport variant carries the upstream failure
//! rendered as text.

use vstd::prelude::*;
use vstd::string::StringExecFns;

verus! {

#[derive(Debug)]
pub enum AppError {
    NotFound(String),
    Internal(String),
    HttpRequest(String),
    DbError(String),
    NotReady(String),
    Validation(String),
    RateLimit(String),
    Config(String),
    DataProcessing(String),
}

pub type AppResult<T> = Result<T, AppError>;

impl AppError {
    /// The HTTP status code the transport layer answers with for each
    /// variant.
    pub open spec fn status_code_spec(self) -> u16 {
        match self {
            AppError::NotFound(_) => 404,
            AppError::Internal(_) => 500,
            AppError::HttpRequest(_) => 502,
            AppError::DbError(_) => 500,
            AppError::NotReady(_) => 503,
            AppError::Validation(_) => 400,
            AppError::RateLimit(_) => 429,
            AppError::Config(_) => 500,
            AppError::DataProcessing(_) => 500,
        }
    }

    pub fn status_code(&self) -> (r: u16)
        ensures
            r == self.status_code_spec(),
    {
        match self {
            AppError::NotFound(_) => 404,
            AppError::Internal(_) => 500,
            AppError::HttpRequest(_) => 502,
            AppError::DbError(_) => 500,
            AppError::NotReady(_) => 503,
            AppError::Validation(_) => 400,
            AppError::RateLimit(_) => 429,
            AppError::Config(_) => 500,
            AppError::DataProcessing(_) => 500,
        }
    }

    /// The stable machine-readable code of each variant.
    pub open spec fn error_code_spec(self) -> Seq<char> {
        match self {
            AppError::NotFound(_) => "NOT_FOUND"@,
            AppError::Internal(_) => "INTERNAL_ERROR"@,
            AppError::HttpRequest(_) => "HTTP_REQUEST_ERROR"@,
            AppError::DbError(_) => "DATABASE_ERROR"@,
            AppError::NotReady(_) => "SERVICE_NOT_READY"@,
            AppError::Validation(_) => "VALIDATION_ERROR"@,
            AppError::RateLimit(_) => "RATE_LIMIT_EXCEEDED"@,
            AppError::Config(_) => "CONFIGURATION_ERROR"@,
            AppError::DataProcessing(_) => "DATA_PROCESSING_ERROR"@,
        }
    }

    pub fn error_code(&self) -> (r: &'static str)
        ensures
            r@ == self.error_code_spec(),
    {
        match self {
            AppError::NotFound(_) => "NOT_FOUND",
            AppError::Internal(_) => "INTERNAL_ERROR",
            AppError::HttpRequest(_) => "HTTP_REQUEST_ERROR",
            AppError::DbError(_) => "DATABASE_ERROR",
            AppError::NotReady(_) => "SERVICE_NOT_READY",
            AppError::Validation(_) => "VALIDATION_ERROR",
            AppError::RateLimit(_) => "RATE_LIMIT_EXCEEDED",
            AppError::Config(_) => "CONFIGURATION_ERROR",
            AppError::DataProcessing(_) => "DATA_PROCESSING_ERROR",
        }
    }

    /// The message carried by the variant.
    pub fn message(&self) -> (r: &String)
        ensures
            r@ == self.message_spec(),
    {
        match self {
            AppError::NotFound(m) => m,
            AppError::Internal(m) => m,
            AppError::HttpRequest(m) => m,
            AppError::DbError(m) => m,
            AppError::NotReady(m) => m,
            AppError::Validation(m) => m,
            AppError::RateLimit(m) => m,
            AppError::Config(m) => m,
            AppError::DataProcessing(m) => m,
        }
    }

    pub open spec fn message_spec(self) -> Seq<char> {
        match self {
            AppError::NotFound(m) => m@,
            AppError::Internal(m) => m@,
            AppError::HttpRequest(m) => m@,
            AppError::DbError(m) => m@,
            AppError::NotReady(m) => m@,
            AppError::Validation(m) => m@,
            AppError::RateLimit(m) => m@,
            AppError::Config(m) => m@,
            AppError::DataProcessing(m) => m@,
        }
    }
}

/// A not-found failure naming the resource and the identifier looked up.
pub fn not_found_error(resource: &str, identifier: &str) -> (r: AppError)
    ensures
        r matches AppError::NotFound(m) && m@ == resource@ + " not found with identifier: "@
            + identifier@,
{
    let msg = resource.to_owned().concat(" not found with identifier: ").concat(identifier);
    AppError::NotFound(msg)
}

/// A data-processing failure naming the operation that failed and why.
pub fn data_processing_error(operation: &str, details: &str) -> (r: AppError)
    ensures
        r matches AppError::DataProcessing(m) && m@ == "Failed to "@ + operation@ + ": "@
            + details@,
{
    let msg = "Failed to ".to_owned().concat(operation).concat(": ").concat(details);
    AppError::DataProcessing(msg)
}

} // verus!
